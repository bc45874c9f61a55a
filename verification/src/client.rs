//! The control client's side of the protocol: how its requests are
//! identified, the handshake it opens with, and how a reply is accepted.

use vstd::prelude::*;
use vstd::string::*;

use crate::protocol::{
    capabilities, capability_names, ControlRequest, ControlResponse, HandshakeRequest,
    PROTOCOL_MAJOR, PROTOCOL_MINOR, RpcResponse, RpcResponseBody,
};
use crate::storage::fresh_id;
use crate::text::{decimal, decimal_text, str_eq};

verus! {

/// The identifier of the client's `n`th request: `req_<n>`.
pub fn request_id(n: u64) -> (r: String)
    ensures
        r@ == "req_"@ + decimal_text(n as nat),
{
    let mut id = String::from_str("req_");
    let digits = decimal(n);
    id.append(digits.as_str());
    id
}

/// A fresh operation identifier: `operation_` and 32 random lowercase hex
/// digits.
pub fn new_operation_id() -> (r: String)
    ensures
        r@.len() == 42,
        r@.take(10) == "operation_"@,
{
    let id = fresh_id("operation");
    proof {
        reveal_strlit("operation");
        reveal_strlit("operation_");
        reveal_strlit("_");
        assert("operation"@ + "_"@ =~= "operation_"@);
    }
    id
}

/// The handshake a client opens with: this protocol version, the client's
/// name and version, and every capability the protocol defines.
pub fn client_handshake(client_name: &str, client_version: &str) -> (r: ControlRequest)
    ensures
        r matches ControlRequest::SystemHandshake(h) && h.protocol_major == PROTOCOL_MAJOR
            && h.protocol_minor == PROTOCOL_MINOR && h.client_name@ == client_name@
            && h.client_version@ == client_version@ && h.requested_capabilities@.map_values(
            |c: String| c@,
        ) == capability_names(),
{
    let names = capabilities();
    let mut requested: Vec<String> = Vec::new();
    let mut i: usize = 0;
    while i < names.len()
        invariant
            i <= names@.len(),
            names@.len() == capability_names().len(),
            forall|j: int| 0 <= j < names@.len() ==> #[trigger] names@[j]@ == capability_names()[j],
            requested@.len() == i,
            forall|j: int| 0 <= j < i ==> #[trigger] requested@[j]@ == capability_names()[j],
        decreases names@.len() - i,
    {
        requested.push(String::from_str(names[i]));
        i = i + 1;
    }
    proof {
        assert(requested@.map_values(|c: String| c@) =~= capability_names());
    }
    ControlRequest::SystemHandshake(
        HandshakeRequest {
            protocol_major: PROTOCOL_MAJOR,
            protocol_minor: PROTOCOL_MINOR,
            client_name: String::from_str(client_name),
            client_version: String::from_str(client_version),
            requested_capabilities: requested,
        },
    )
}

/// What the client makes of the reply to its request `expected_id`: a reply
/// to another request breaks the protocol, a result is returned, and an
/// error is reported by its stable code.
pub fn reply_result(expected_id: &str, response: RpcResponse) -> (r: Result<ControlResponse, String>)
    ensures
        response.id@ != expected_id@ ==> (r matches Err(code) && code@ == "PROTOCOL_INCOMPATIBLE"@),
        response.id@ == expected_id@ ==> match response.body {
            RpcResponseBody::Result { result } => r == Ok::<ControlResponse, String>(result),
            RpcResponseBody::Error { error } => r == Err::<ControlResponse, String>(
                error.data.error_code,
            ),
        },
{
    if !str_eq(response.id.as_str(), expected_id) {
        return Err(String::from_str("PROTOCOL_INCOMPATIBLE"));
    }
    match response.body {
        RpcResponseBody::Result { result } => Ok(result),
        RpcResponseBody::Error { error } => Err(error.data.error_code),
    }
}

} // verus!
