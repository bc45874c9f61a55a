//! The control-plane daemon's request rules: the connection's framing and
//! handshake gate, the answers computed from stored state, idempotent
//! operations, and the redacted error envelope.

use vstd::prelude::*;
use vstd::string::*;

use crate::error::{CoreError, CoreResult};
use crate::layout::{is_valid_id, validate_id};
use crate::model::{LaunchView, TransactionState};
use crate::protocol::{
    HandshakeRequest, HandshakeResponse, HealthResponse, MAX_CONTROL_MESSAGE_BYTES, PROTOCOL_MAJOR,
    PROTOCOL_MINOR, RpcError, RpcErrorData, RpcResponse, RpcResponseBody, StatusResponse, granted,
    negotiate_capabilities, ControlRequest, ControlResponse,
};
use crate::rows::is_storage_failure;
use crate::storage::{
    all_decode_account, all_decode_incident, all_decode_launch, all_decode_project,
    all_decode_terminal, all_decode_thread, answered, asked_with, last_rows, ACCOUNT_QUERY, ALL_INCIDENTS_QUERY, LAUNCH_QUERY,
    OPEN_INCIDENTS_QUERY, PROJECT_QUERY, TERMINALS_QUERY, THREADS_QUERY,
};
use crate::rows::{
    account_row, decodes_account, decodes_incident, decodes_launch, decodes_project,
    decodes_terminal, decodes_thread, incident_row, launch_row, project_row, terminal_row, thread_row,
};
use crate::storage::{read_from, grown, is_operation_insert, storage_or, OperationClaim, Storage};
use crate::text::{starts_with_str, str_eq};

verus! {

/// The most control connections served at once.
pub const MAX_CONTROL_CONNECTIONS: usize = 64;

/// The JSON-RPC error code of every refused request.
pub const SAFE_ERROR_CODE: i32 = -32041;

/// An operation identifier: a resource identifier that starts `operation_`.
pub open spec fn is_operation_id(value: &str) -> bool {
    is_valid_id(value.spec_bytes()) && value@.len() >= 10 && value@.take(10) == "operation_"@
}

pub fn validate_operation(operation_id: &str) -> (r: CoreResult<()>)
    ensures
        r is Ok <==> is_operation_id(operation_id),
        r matches Err(e) ==> e.code@ == "INVALID_REQUEST"@,
{
    proof {
        reveal_strlit("operation_");
    }
    validate_id(operation_id)?;
    if !starts_with_str(operation_id, "operation_") {
        return Err(CoreError::new("INVALID_REQUEST", "operation identifier is invalid"));
    }
    Ok(())
}

/// The first line of what a control connection sent, read as
/// `BufRead::read_line` reads it through a limit of one byte over the
/// message bound: up to and including the first newline, or to the limit, or
/// to the end.
pub open spec fn control_line_bytes(input: Seq<u8>) -> Seq<u8> {
    let window = input.take(
        if input.len() <= MAX_CONTROL_MESSAGE_BYTES + 1 {
            input.len() as int
        } else {
            MAX_CONTROL_MESSAGE_BYTES + 1
        },
    );
    window.take(line_end(window))
}

/// The length of the first line of `b`, its newline included; all of `b`
/// when it holds no newline.
pub open spec fn line_end(b: Seq<u8>) -> int
    decreases b.len(),
{
    if b.len() == 0 {
        0
    } else if b[0] == 10u8 {
        1
    } else {
        1 + line_end(b.drop_first())
    }
}

proof fn lemma_line_end_bounds(b: Seq<u8>)
    ensures
        0 <= line_end(b) <= b.len(),
    decreases b.len(),
{
    if b.len() > 0 && b[0] != 10u8 {
        lemma_line_end_bounds(b.drop_first());
    }
}

/// The first line of `b` ends just after its first newline: no newline comes
/// before that end, and a line that stops short of the end of `b` stops at a
/// newline; a line that takes all of `b` either ends in a newline or `b`
/// holds none.
pub proof fn lemma_line_end_is_first_newline(b: Seq<u8>)
    ensures
        0 <= line_end(b) <= b.len(),
        forall|i: int| 0 <= i < line_end(b) - 1 ==> #[trigger] b[i] != 10u8,
        line_end(b) < b.len() ==> line_end(b) > 0 && b[line_end(b) - 1] == 10u8,
        (line_end(b) > 0 && b[line_end(b) - 1] == 10u8) || forall|i: int|
            0 <= i < b.len() ==> #[trigger] b[i] != 10u8,
    decreases b.len(),
{
    if b.len() > 0 && b[0] != 10u8 {
        let rest = b.drop_first();
        lemma_line_end_is_first_newline(rest);
        assert forall|i: int| 0 <= i < line_end(b) - 1 implies #[trigger] b[i] != 10u8 by {
            if i > 0 {
                assert(b[i] == rest[i - 1]);
            }
        }
        if line_end(rest) > 0 && rest[line_end(rest) - 1] == 10u8 {
            assert(b[line_end(b) - 1] == rest[line_end(rest) - 1]);
        } else {
            assert forall|i: int| 0 <= i < b.len() implies #[trigger] b[i] != 10u8 by {
                if i > 0 {
                    assert(b[i] == rest[i - 1]);
                }
            }
        }
    }
}

fn first_line_end(input: &[u8], limit: usize) -> (r: usize)
    requires
        limit <= input@.len(),
    ensures
        r == line_end(input@.take(limit as int)),
        r <= limit,
{
    proof {
        lemma_line_end_bounds(input@.take(limit as int));
    }
    let ghost window = input@.take(limit as int);
    let mut i: usize = 0;
    proof {
        assert(window.skip(0) =~= window);
    }
    while i < limit
        invariant
            limit <= input@.len(),
            window == input@.take(limit as int),
            i <= limit,
            line_end(window) == i + line_end(window.skip(i as int)),
        decreases limit - i,
    {
        let ghost rest = window.skip(i as int);
        assert(rest[0] == input@[i as int]);
        if input[i] == 10u8 {
            return i + 1;
        }
        proof {
            assert(rest.drop_first() =~= window.skip(i + 1));
        }
        i = i + 1;
    }
    proof {
        assert(window.skip(limit as int).len() == 0);
    }
    limit
}

/// The next control message of a connection: `None` at the end of input, an
/// `INVALID_REQUEST` refusal when the line exceeds the negotiated bound (seen
/// after reading at most one byte past it), and a storage failure when it is
/// not UTF-8 text.
pub fn read_control_line(input: &[u8]) -> (r: CoreResult<Option<String>>)
    ensures
        !vstd::utf8::valid_utf8(control_line_bytes(input@)) ==> (r matches Err(e) && e.code@ == "STORAGE_FAILURE"@),
        vstd::utf8::valid_utf8(control_line_bytes(input@)) ==> {
            &&& (control_line_bytes(input@).len() == 0 <==> r matches Ok(None))
            &&& (control_line_bytes(input@).len() > MAX_CONTROL_MESSAGE_BYTES <==> (r matches Err(e) && e.code@ == "INVALID_REQUEST"@))
            &&& (r matches Ok(Some(line)) ==> line@ == vstd::utf8::decode_utf8(control_line_bytes(input@)))
        },
{
    let limit = if input.len() <= MAX_CONTROL_MESSAGE_BYTES + 1 {
        input.len()
    } else {
        MAX_CONTROL_MESSAGE_BYTES + 1
    };
    let end = first_line_end(input, limit);
    let line = crate::gateway::slice_prefix(input, end);
    proof {
        let window = input@.take(limit as int);
        assert(window.take(end as int) =~= input@.take(end as int));
        assert(line@ == control_line_bytes(input@));
    }
    let text = match crate::text::utf8_text(line.as_slice()) {
        Some(text) => text,
        None => {
            return Err(CoreError::new("STORAGE_FAILURE", "a controlled filesystem operation failed"));
        },
    };
    proof {
        crate::text::lemma_text_chars(text, line@);
    }
    if end == 0 {
        return Ok(None);
    }
    if end > MAX_CONTROL_MESSAGE_BYTES {
        return Err(CoreError::new("INVALID_REQUEST", "control message exceeds negotiated limit"));
    }
    Ok(Some(text.to_string()))
}

/// A JSON-RPC request is served only as version `2.0` with an identifier.
pub fn accepts_envelope(jsonrpc: &str, id: &str) -> (r: bool)
    ensures
        r == (jsonrpc@ == "2.0"@ && id@.len() > 0),
{
    str_eq(jsonrpc, "2.0") && id.unicode_len() > 0
}

/// No request but the handshake is served before a successful handshake.
pub fn check_handshake_first(handshaken: bool, is_handshake: bool) -> (r: CoreResult<()>)
    ensures
        r is Ok <==> handshaken || is_handshake,
        r matches Err(e) ==> e.code@ == "PERMISSION_DENIED"@,
{
    if !handshaken && !is_handshake {
        return Err(CoreError::new("PERMISSION_DENIED", "system.handshake must be the first request"));
    }
    Ok(())
}

/// The handshake answer: refused on another protocol major version,
/// otherwise the daemon's version and instance, and the requested
/// capabilities the daemon knows, in the order asked.
pub fn handshake(request: &HandshakeRequest, daemon_version: &str, instance_id: &str) -> (r:
    CoreResult<HandshakeResponse>)
    ensures
        r is Ok <==> request.protocol_major == PROTOCOL_MAJOR,
        r matches Ok(h) ==> h.protocol_major == PROTOCOL_MAJOR && h.protocol_minor == PROTOCOL_MINOR
            && h.daemon_version@ == daemon_version@ && h.daemon_instance_id@ == instance_id@
            && h.granted_capabilities@.map_values(|c: String| c@) == granted(
            request.requested_capabilities@.map_values(|c: String| c@),
        ) && h.max_control_message_bytes == MAX_CONTROL_MESSAGE_BYTES,
        r matches Err(e) ==> e.code@ == "PROTOCOL_INCOMPATIBLE"@,
{
    if request.protocol_major != PROTOCOL_MAJOR {
        return Err(CoreError::new("PROTOCOL_INCOMPATIBLE", "protocol major versions are incompatible"));
    }
    Ok(
        HandshakeResponse {
            protocol_major: PROTOCOL_MAJOR,
            protocol_minor: PROTOCOL_MINOR,
            daemon_version: String::from_str(daemon_version),
            daemon_instance_id: String::from_str(instance_id),
            granted_capabilities: negotiate_capabilities(&request.requested_capabilities),
            max_control_message_bytes: MAX_CONTROL_MESSAGE_BYTES,
        },
    )
}

/// The number of launches whose transaction is not in a terminal state.
pub open spec fn active_count(launches: Seq<LaunchView>) -> nat
    decreases launches.len(),
{
    if launches.len() == 0 {
        0
    } else {
        active_count(launches.drop_last()) + if launches.last().state.is_terminal() {
            0nat
        } else {
            1nat
        }
    }
}

proof fn lemma_active_count_bounded(launches: Seq<LaunchView>)
    ensures
        active_count(launches) <= launches.len(),
    decreases launches.len(),
{
    if launches.len() > 0 {
        lemma_active_count_bounded(launches.drop_last());
    }
}

/// The active launches are counted exactly: the count is the number of
/// launches whose state is not terminal.
pub proof fn lemma_active_count_counts_live(launches: Seq<LaunchView>)
    ensures
        active_count(launches) == launches.filter(|l: LaunchView| !l.state.is_terminal()).len(),
    decreases launches.len(),
{
    if launches.len() > 0 {
        let p = launches.drop_last();
        lemma_active_count_counts_live(p);
        p.lemma_filter_push(launches.last(), |l: LaunchView| !l.state.is_terminal());
        assert(p.push(launches.last()) =~= launches);
    }
}

pub fn count_active_launches(launches: &Vec<LaunchView>) -> (r: u64)
    requires
        launches@.len() <= u64::MAX,
    ensures
        r == active_count(launches@),
{
    let mut count: u64 = 0;
    let mut i: usize = 0;
    while i < launches.len()
        invariant
            i <= launches@.len(),
            launches@.len() <= u64::MAX,
            count == active_count(launches@.take(i as int)),
        decreases launches@.len() - i,
    {
        proof {
            assert(launches@.take(i + 1).drop_last() =~= launches@.take(i as int));
            lemma_active_count_bounded(launches@.take(i as int));
        }
        if !launches[i].state.terminal() {
            count = count + 1;
        }
        i = i + 1;
    }
    proof {
        assert(launches@.take(launches@.len() as int) =~= launches@);
    }
    count
}

/// The status answer from the stored counts and launches.
pub fn status_response(
    instance_id: &str,
    counts: (u64, u64, u64, u64),
    launches: &Vec<LaunchView>,
) -> (r: StatusResponse)
    requires
        launches@.len() <= u64::MAX,
    ensures
        r.daemon_instance_id@ == instance_id@,
        r.accounts == counts.0,
        r.projects == counts.1,
        r.launches == counts.2,
        r.recovery_incidents == counts.3,
        r.active_launches == active_count(launches@),
{
    StatusResponse {
        daemon_instance_id: String::from_str(instance_id),
        accounts: counts.0,
        projects: counts.1,
        launches: counts.2,
        recovery_incidents: counts.3,
        active_launches: count_active_launches(launches),
    }
}

/// The health answer from the integrity check and schema version.
pub fn health_response(integrity: String, schema_version: u32, instance_id: &str) -> (r:
    HealthResponse)
    ensures
        r.healthy,
        r.database_integrity == integrity,
        r.schema_version == schema_version,
        r.daemon_instance_id@ == instance_id@,
{
    HealthResponse {
        healthy: true,
        database_integrity: integrity,
        schema_version,
        daemon_instance_id: String::from_str(instance_id),
    }
}

/// What an idempotent operation does with its claim.
#[derive(Debug, Clone, PartialEq, Eq)]
pub enum IdempotentStep {
    /// The same request finished before: its stored response is replayed.
    Replay(String),
    /// The identifier is new: the operation runs now.
    Execute,
}

/// The step an operation takes for its claim; a claim left in progress
/// needs recovery and is refused.
pub fn idempotent_step(claim: OperationClaim) -> (r: CoreResult<IdempotentStep>)
    ensures
        claim matches OperationClaim::Completed(s) ==> r matches Ok(IdempotentStep::Replay(t)) && t == s,
        claim is New ==> r matches Ok(IdempotentStep::Execute),
        claim is InProgress ==> (r matches Err(e) && e.code@ == "RECOVERY_REQUIRED"@),
{
    match claim {
        OperationClaim::Completed(response) => Ok(IdempotentStep::Replay(response)),
        OperationClaim::InProgress => Err(
            CoreError::new("RECOVERY_REQUIRED", "operation is incomplete and requires recovery"),
        ),
        OperationClaim::New => Ok(IdempotentStep::Execute),
    }
}

/// Whether an error may succeed if retried unchanged.
pub open spec fn is_retryable(code: Seq<char>) -> bool {
    code == "ACCOUNT_IN_USE"@ || code == "PROJECT_IN_USE"@ || code == "LOCKED"@
}

/// Whether an error needs the user to act before anything can proceed.
pub open spec fn needs_user_action(code: Seq<char>) -> bool {
    code == "CREDENTIAL_CONFLICT"@ || code == "RECOVERY_REQUIRED"@ || code
        == "PROCESS_IDENTITY_UNCONFIRMED"@
}

pub fn error_flags(code: &str) -> (r: (bool, bool))
    ensures
        r.0 == is_retryable(code@),
        r.1 == needs_user_action(code@),
{
    proof {
        reveal_strlit("ACCOUNT_IN_USE");
        reveal_strlit("PROJECT_IN_USE");
        reveal_strlit("LOCKED");
        reveal_strlit("CREDENTIAL_CONFLICT");
        reveal_strlit("RECOVERY_REQUIRED");
        reveal_strlit("PROCESS_IDENTITY_UNCONFIRMED");
        assert("ACCOUNT_IN_USE"@.len() == 14);
        assert("PROJECT_IN_USE"@.len() == 14);
        assert("LOCKED"@.len() == 6);
        assert("CREDENTIAL_CONFLICT"@.len() == 19);
        assert("RECOVERY_REQUIRED"@.len() == 17);
        assert("PROCESS_IDENTITY_UNCONFIRMED"@.len() == 28);
    }
    if str_eq(code, "ACCOUNT_IN_USE") || str_eq(code, "PROJECT_IN_USE") || str_eq(code, "LOCKED") {
        (true, false)
    } else if str_eq(code, "CREDENTIAL_CONFLICT") || str_eq(code, "RECOVERY_REQUIRED") || str_eq(
        code,
        "PROCESS_IDENTITY_UNCONFIRMED",
    ) {
        (false, true)
    } else {
        (false, false)
    }
}

/// A refused request's response: one fixed message whatever the cause, the
/// error's code, its retry and user-action flags, and a correlation id.
pub fn error_response(id: &str, error: &CoreError, correlation_id: String) -> (r: RpcResponse)
    ensures
        r.jsonrpc@ == "2.0"@,
        r.id@ == id@,
        r.body matches RpcResponseBody::Error { error: e } && e.code == SAFE_ERROR_CODE
            && e.message@ == "The requested operation cannot proceed safely."@
            && e.data.error_code@ == error.code@ && e.data.retryable == is_retryable(error.code@)
            && e.data.user_action_required == needs_user_action(error.code@)
            && e.data.correlation_id == correlation_id,
{
    let (retryable, user_action_required) = error_flags(error.code);
    RpcResponse {
        jsonrpc: String::from_str("2.0"),
        id: String::from_str(id),
        body: RpcResponseBody::Error {
            error: RpcError {
                code: SAFE_ERROR_CODE,
                message: String::from_str("The requested operation cannot proceed safely."),
                data: RpcErrorData {
                    error_code: String::from_str(error.code),
                    retryable,
                    user_action_required,
                    correlation_id,
                },
            },
        },
    }
}

/// A served request's response.
pub fn success_response(id: &str, result: ControlResponse) -> (r: RpcResponse)
    ensures
        r.jsonrpc@ == "2.0"@,
        r.id@ == id@,
        r.body == (RpcResponseBody::Result { result }),
{
    RpcResponse {
        jsonrpc: String::from_str("2.0"),
        id: String::from_str(id),
        body: RpcResponseBody::Result { result },
    }
}

/// A new connection is served only below the connection bound.
pub fn admit_connection(active: usize) -> (r: Option<usize>)
    ensures
        active < MAX_CONTROL_CONNECTIONS ==> r == Some((active + 1) as usize),
        active >= MAX_CONTROL_CONNECTIONS ==> r is None,
{
    if active < MAX_CONTROL_CONNECTIONS {
        Some(active + 1)
    } else {
        None
    }
}

/// The requests answered from stored state alone, with no host work.
pub open spec fn is_query(request: ControlRequest) -> bool {
    match request {
        ControlRequest::SystemHandshake(_) | ControlRequest::SystemHealth
        | ControlRequest::SystemStatus | ControlRequest::AccountList | ControlRequest::ProjectList
        | ControlRequest::LaunchList | ControlRequest::RecoveryIncidentList { .. }
        | ControlRequest::TerminalList { .. } | ControlRequest::ThreadList { .. } => true,
        _ => false,
    }
}

/// The kind of answer each query receives.
pub open spec fn answers(request: ControlRequest, response: ControlResponse) -> bool {
    match request {
        ControlRequest::SystemHandshake(_) => response is Handshake,
        ControlRequest::SystemHealth => response is Health,
        ControlRequest::SystemStatus => response is Status,
        ControlRequest::AccountList => response is Accounts,
        ControlRequest::ProjectList => response is Projects,
        ControlRequest::LaunchList => response is Launches,
        ControlRequest::RecoveryIncidentList { .. } => response is RecoveryIncidents,
        ControlRequest::TerminalList { .. } => response is Terminals,
        ControlRequest::ThreadList { .. } => response is Threads,
        _ => false,
    }
}

/// Answers a request that only reads stored state; any other request is left
/// to the host (`None`). A handshake is answered as `handshake` answers it,
/// health and status carry this daemon's instance, and a list scoped to a
/// project refuses an invalid project identifier before reading anything.
pub fn answer_query(
    storage: &mut Storage,
    daemon_version: &str,
    instance_id: &str,
    request: &ControlRequest,
) -> (r: Option<CoreResult<ControlResponse>>)
    ensures
        read_from(*old(storage), *final(storage)),
        r is Some <==> is_query(*request),
        r matches Some(Ok(response)) ==> answers(*request, response),
        request matches ControlRequest::SystemHandshake(h) ==> (r matches Some(res) && (res is Ok
            <==> h.protocol_major == PROTOCOL_MAJOR) && (res matches Err(e) ==> e.code@
            == "PROTOCOL_INCOMPATIBLE"@) && (res matches Ok(ControlResponse::Handshake(x)) ==> x.daemon_version@
            == daemon_version@ && x.daemon_instance_id@ == instance_id@
            && x.granted_capabilities@.map_values(|c: String| c@) == granted(
            h.requested_capabilities@.map_values(|c: String| c@),
        ))),
        r matches Some(Ok(ControlResponse::Health(x))) ==> x.healthy && x.database_integrity@
            == "ok"@ && x.daemon_instance_id@ == instance_id@,
        r matches Some(Ok(ControlResponse::Status(x))) ==> x.daemon_instance_id@ == instance_id@,
        request matches ControlRequest::TerminalList { project_id } ==> (!is_valid_id(
            vstd::utf8::encode_utf8(project_id@),
        ) ==> (r matches Some(Err(e)) && e.code@ == "INVALID_REQUEST"@)),
        request matches ControlRequest::ThreadList { project_id } ==> (!is_valid_id(
            vstd::utf8::encode_utf8(project_id@),
        ) ==> (r matches Some(Err(e)) && e.code@ == "INVALID_REQUEST"@)),
        request is AccountList ==> (r matches Some(Ok(ControlResponse::Accounts(v))) ==> answered(
            old(storage).queried(),
            final(storage).queried(),
            ACCOUNT_QUERY@,
            seq![],
        ) && all_decode_account(last_rows(final(storage).queried()), v@)),
        request is ProjectList ==> (r matches Some(Ok(ControlResponse::Projects(v))) ==> answered(
            old(storage).queried(),
            final(storage).queried(),
            PROJECT_QUERY@,
            seq![],
        ) && all_decode_project(last_rows(final(storage).queried()), v@) && (forall|j: int|
            0 <= j < v@.len() ==> (#[trigger] v@[j]).archived_at is None)),
        request is LaunchList ==> (r matches Some(Ok(ControlResponse::Launches(v))) ==> answered(
            old(storage).queried(),
            final(storage).queried(),
            LAUNCH_QUERY@,
            seq![],
        ) && all_decode_launch(last_rows(final(storage).queried()), v@)),
        request matches ControlRequest::RecoveryIncidentList { include_resolved } ==> (r matches Some(
            Ok(ControlResponse::RecoveryIncidents(v)),
        ) ==> answered(
            old(storage).queried(),
            final(storage).queried(),
            if *include_resolved { ALL_INCIDENTS_QUERY@ } else { OPEN_INCIDENTS_QUERY@ },
            seq![],
        ) && all_decode_incident(last_rows(final(storage).queried()), v@) && (forall|j: int|
            0 <= j < v@.len() ==> *include_resolved || (#[trigger] v@[j]).status@ == "open"@)),
        request matches ControlRequest::TerminalList { project_id } ==> (r matches Some(
            Ok(ControlResponse::Terminals(v)),
        ) ==> answered(
            old(storage).queried(),
            final(storage).queried(),
            TERMINALS_QUERY@,
            seq![project_id@],
        ) && all_decode_terminal(last_rows(final(storage).queried()), v@) && (forall|j: int|
            0 <= j < v@.len() ==> (#[trigger] v@[j]).project_id@ == project_id@)),
        request matches ControlRequest::ThreadList { project_id } ==> (r matches Some(
            Ok(ControlResponse::Threads(v)),
        ) ==> asked_with(
            final(storage).queried().last(),
            THREADS_QUERY@,
            seq![project_id@],
        ) && all_decode_thread(last_rows(final(storage).queried()), v@) && (forall|j: int|
            0 <= j < v@.len() ==> (#[trigger] v@[j]).project_id@ == project_id@)),
        r matches Some(Err(e)) ==> !(request is SystemHandshake) ==> storage_or(e, "NOT_FOUND"@)
            || e.code@ == "INVALID_REQUEST"@,
{
    match request {
        ControlRequest::SystemHandshake(handshake_request) => {
            match handshake(handshake_request, daemon_version, instance_id) {
                Ok(answer) => Some(Ok(ControlResponse::Handshake(answer))),
                Err(error) => Some(Err(error)),
            }
        },
        ControlRequest::SystemHealth => Some(health(storage, instance_id)),
        ControlRequest::SystemStatus => Some(status(storage, instance_id)),
        ControlRequest::AccountList => match storage.list_accounts() {
            Ok(accounts) => Some(Ok(ControlResponse::Accounts(accounts))),
            Err(error) => Some(Err(error)),
        },
        ControlRequest::ProjectList => match storage.list_projects() {
            Ok(projects) => Some(Ok(ControlResponse::Projects(projects))),
            Err(error) => Some(Err(error)),
        },
        ControlRequest::LaunchList => match storage.list_launches() {
            Ok(launches) => Some(Ok(ControlResponse::Launches(launches))),
            Err(error) => Some(Err(error)),
        },
        ControlRequest::RecoveryIncidentList { include_resolved } => match storage.list_incidents(
            *include_resolved,
        ) {
            Ok(incidents) => Some(Ok(ControlResponse::RecoveryIncidents(incidents))),
            Err(error) => Some(Err(error)),
        },
        ControlRequest::TerminalList { project_id } => Some(terminals(storage, project_id.as_str())),
        ControlRequest::ThreadList { project_id } => Some(threads(storage, project_id.as_str())),
        _ => None,
    }
}

fn health(storage: &mut Storage, instance_id: &str) -> (r: CoreResult<ControlResponse>)
    ensures
        read_from(*old(storage), *final(storage)),
        r matches Ok(response) ==> response matches ControlResponse::Health(x) && x.healthy
            && x.database_integrity@ == "ok"@ && x.daemon_instance_id@ == instance_id@,
        r matches Err(e) ==> is_storage_failure(e),
{
    let integrity = storage.integrity()?;
    let schema_version = storage.schema_version()?;
    Ok(ControlResponse::Health(health_response(integrity, schema_version, instance_id)))
}

fn status(storage: &mut Storage, instance_id: &str) -> (r: CoreResult<ControlResponse>)
    ensures
        read_from(*old(storage), *final(storage)),
        r matches Ok(response) ==> response matches ControlResponse::Status(x)
            && x.daemon_instance_id@ == instance_id@,
        r matches Err(e) ==> is_storage_failure(e),
{
    let counts = storage.counts()?;
    let launches = storage.list_launches()?;
    let n: usize = launches.len();
    assert(n <= u64::MAX);
    Ok(ControlResponse::Status(status_response(instance_id, counts, &launches)))
}

fn terminals(storage: &mut Storage, project_id: &str) -> (r: CoreResult<ControlResponse>)
    ensures
        read_from(*old(storage), *final(storage)),
        r matches Ok(response) ==> response matches ControlResponse::Terminals(v) && answered(
            old(storage).queried(),
            final(storage).queried(),
            TERMINALS_QUERY@,
            seq![project_id@],
        ) && all_decode_terminal(last_rows(final(storage).queried()), v@) && (forall|j: int|
            0 <= j < v@.len() ==> (#[trigger] v@[j]).project_id@ == project_id@),
        !is_valid_id(project_id.spec_bytes()) ==> (r matches Err(e) && e.code@ == "INVALID_REQUEST"@),
        r matches Err(e) ==> is_storage_failure(e) || e.code@ == "INVALID_REQUEST"@,
{
    validate_id(project_id)?;
    Ok(ControlResponse::Terminals(storage.list_terminals(project_id)?))
}

fn threads(storage: &mut Storage, project_id: &str) -> (r: CoreResult<ControlResponse>)
    ensures
        read_from(*old(storage), *final(storage)),
        r matches Ok(response) ==> response matches ControlResponse::Threads(v) && asked_with(
            final(storage).queried().last(),
            THREADS_QUERY@,
            seq![project_id@],
        ) && all_decode_thread(last_rows(final(storage).queried()), v@) && (forall|j: int|
            0 <= j < v@.len() ==> (#[trigger] v@[j]).project_id@ == project_id@),
        !is_valid_id(project_id.spec_bytes()) ==> (r matches Err(e) && e.code@ == "INVALID_REQUEST"@),
        r matches Err(e) ==> storage_or(e, "NOT_FOUND"@) || e.code@ == "INVALID_REQUEST"@,
{
    validate_id(project_id)?;
    storage.project(project_id)?;
    Ok(ControlResponse::Threads(storage.list_thread_indexes(project_id)?))
}

/// Begins an idempotent operation: the identifier must be an operation
/// identifier; it is claimed for the method and the SHA-256 of the request's
/// encoded semantic fields, and the claim decides whether the operation runs
/// or its stored response is replayed.
pub fn begin_operation(
    storage: &mut Storage,
    operation_id: &str,
    method: &str,
    semantic_request: &[u8],
) -> (r: CoreResult<IdempotentStep>)
    ensures
        !is_operation_id(operation_id) ==> (r matches Err(e) && e.code@ == "INVALID_REQUEST"@),
        r is Ok ==> is_operation_id(operation_id),
        r matches Err(e) ==> storage_or(e, "CONFLICT"@) || e.code@ == "INVALID_REQUEST"@ || e.code@
            == "RECOVERY_REQUIRED"@,
        final(storage).spec_layout() == old(storage).spec_layout(),
        grown(old(storage).issued(), final(storage).issued()),
        final(storage).issued().len() <= old(storage).issued().len() + 1,
        !is_operation_id(operation_id) ==> final(storage).issued() == old(storage).issued(),
        final(storage).issued().len() == old(storage).issued().len() + 1 ==> is_operation_insert(
            final(storage).issued().last(),
            operation_id@,
            method@,
            crate::digest::hex_text(crate::digest::sha256_digest(semantic_request@)),
        ),
        r matches Ok(IdempotentStep::Execute) ==> final(storage).issued().len() == old(
            storage,
        ).issued().len() + 1,
{
    validate_operation(operation_id)?;
    let request_hash = crate::digest::hex_sha256(semantic_request);
    let claim = storage.claim_operation(operation_id, method, request_hash.as_str())?;
    idempotent_step(claim)
}

} // verus!
