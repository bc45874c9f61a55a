//! The desktop host's fixed bridge to the retained terminal gateway: which
//! executable it starts inside WSL, on which socket, and how many requests
//! may wait for an answer.

use vstd::prelude::*;
use vstd::string::*;

use crate::protocol::{Phase3Error, Phase3Response};

verus! {

/// The gateway's dedicated tmux socket.
pub const BRIDGE_SOCKET: &'static str = "muxlane-p3";

/// The fixed program that starts the gateway inside WSL.
pub const WSL_ENV: &'static str = "/usr/bin/env";

/// The gateway executable.
pub const GATEWAY_EXECUTABLE: &'static str = "muxlaned";

/// The event that carries gateway frames to the desktop view.
pub const EVENT_NAME: &'static str = "phase3-terminal-frame";

/// The most requests that may wait for an answer at once.
pub const MAX_PENDING_REQUESTS: usize = 32;

/// How long a request waits for its answer.
pub const RESPONSE_TIMEOUT_SECONDS: u64 = 5;

/// A request is admitted only while fewer than the bound are pending.
pub fn admit_request(pending: usize) -> (r: bool)
    ensures
        r == (pending < MAX_PENDING_REQUESTS),
{
    pending < MAX_PENDING_REQUESTS
}

/// A bridge-side failure.
pub fn bridge_error(message: &str) -> (e: Phase3Error)
    ensures
        e.code@ == "bridge"@,
        e.message@ == message@,
{
    Phase3Error { code: String::from_str("bridge"), message: String::from_str(message) }
}

/// A gateway error as the desktop view shows it: `code: message`.
pub fn display_error(error: Phase3Error) -> (s: String)
    ensures
        s@ == error.code@ + ": "@ + error.message@,
{
    let mut s = error.code;
    s.append(": ");
    s.append(error.message.as_str());
    s
}

/// Only an acknowledgement completes an acknowledged request.
pub fn acknowledged(response: Phase3Response) -> (r: Result<(), String>)
    ensures
        r is Ok <==> response is Acknowledged,
        r matches Err(m) ==> m@ == "Phase 3 bridge returned an unexpected acknowledgement"@,
{
    match response {
        Phase3Response::Acknowledged => Ok(()),
        _ => Err(String::from_str("Phase 3 bridge returned an unexpected acknowledgement")),
    }
}

} // verus!
