//! The versioned local control protocol: message shapes, capability
//! negotiation and the control-line limits.

use vstd::prelude::*;
use vstd::string::*;

use crate::model::{
    Account, CapabilityProbe, DiagnosticReceipt, LaunchView, Project, RecoveryIncident,
    RecoveryResult, Terminal, ThreadIndex, UsageRefreshResult, UsageSnapshot,
};
use crate::text::str_eq;

verus! {

pub const PROTOCOL_MAJOR: u16 = 1;

pub const PROTOCOL_MINOR: u16 = 0;

pub const MAX_CONTROL_MESSAGE_BYTES: usize = 131072;

pub const TERMINAL_DATA_PROTOCOL_MAJOR: u16 = 1;

pub const TERMINAL_DATA_PROTOCOL_MINOR: u16 = 0;

pub const MAX_TERMINAL_DATA_MESSAGE_BYTES: usize = 131072;

/// Stable package identifier of the protocol.
pub const PROTOCOL_CRATE_IDENTIFIER: &'static str = "muxlane-protocol";

/// The capabilities this protocol version defines, in order.
pub open spec fn capability_names() -> Seq<Seq<char>> {
    seq![
        "core.read.v1"@,
        "account.read.v1"@,
        "account.import.v1"@,
        "project.read.v1"@,
        "project.register.v1"@,
        "project.archive.v1"@,
        "launch.start.v1"@,
        "launch.read.v1"@,
        "recovery.scan.v1"@,
        "recovery.incident.v1"@,
        "terminal.read.v1"@,
        "terminal.create.v1"@,
        "terminal.history.v1"@,
        "terminal.close.v1"@,
        "terminal.data.v1"@,
        "thread.index.v1"@,
        "usage.probe.v1"@,
        "usage.read.v1"@,
        "usage.refresh.v1"@,
        "usage.batch.v1"@,
        "diagnostics.export.v1"@,
    ]
}

/// The capabilities this protocol version defines.
pub fn capabilities() -> (r: Vec<&'static str>)
    ensures
        r@.len() == capability_names().len(),
        forall|i: int| 0 <= i < r@.len() ==> #[trigger] r@[i]@ == capability_names()[i],
{
    let r = vec![
        "core.read.v1",
        "account.read.v1",
        "account.import.v1",
        "project.read.v1",
        "project.register.v1",
        "project.archive.v1",
        "launch.start.v1",
        "launch.read.v1",
        "recovery.scan.v1",
        "recovery.incident.v1",
        "terminal.read.v1",
        "terminal.create.v1",
        "terminal.history.v1",
        "terminal.close.v1",
        "terminal.data.v1",
        "thread.index.v1",
        "usage.probe.v1",
        "usage.read.v1",
        "usage.refresh.v1",
        "usage.batch.v1",
        "diagnostics.export.v1",
    ];
    r
}

/// Whether the protocol defines a capability.
pub fn is_known_capability(name: &str) -> (r: bool)
    ensures
        r == capability_names().contains(name@),
{
    let known = capabilities();
    let mut i: usize = 0;
    while i < known.len()
        invariant
            known@.len() == capability_names().len(),
            forall|k: int| 0 <= k < known@.len() ==> #[trigger] known@[k]@ == capability_names()[k],
            i <= known@.len(),
            forall|k: int| 0 <= k < i ==> capability_names()[k] != name@,
        decreases known@.len() - i,
    {
        if str_eq(known[i], name) {
            assert(capability_names()[i as int] == name@);
            return true;
        }
        i = i + 1;
    }
    false
}

/// The requested capabilities that the protocol defines, in request order.
pub open spec fn granted(requested: Seq<Seq<char>>) -> Seq<Seq<char>> {
    requested.filter(|c: Seq<char>| capability_names().contains(c))
}

/// Grants the requested capabilities this protocol defines.
pub fn negotiate_capabilities(requested: &Vec<String>) -> (r: Vec<String>)
    ensures
        r@.map_values(|s: String| s@) == granted(requested@.map_values(|s: String| s@)),
{
    let ghost names = requested@.map_values(|s: String| s@);
    let mut r: Vec<String> = Vec::new();
    let mut i: usize = 0;
    while i < requested.len()
        invariant
            names == requested@.map_values(|s: String| s@),
            i <= requested@.len(),
            r@.map_values(|s: String| s@) == granted(names.take(i as int)),
        decreases requested@.len() - i,
    {
        proof {
            assert(names.take(i + 1).drop_last() =~= names.take(i as int));
            assert(names.take(i + 1).last() == requested@[i as int]@);
            reveal_with_fuel(Seq::filter, 1);
        }
        if is_known_capability(requested[i].as_str()) {
            r.push(requested[i].clone());
            proof {
                assert(r@.map_values(|s: String| s@) =~= granted(names.take(i as int)).push(
                    requested@[i as int]@,
                ));
            }
        }
        i = i + 1;
    }
    proof {
        assert(names.take(requested@.len() as int) =~= names);
    }
    r
}

#[derive(Debug, Clone, PartialEq, Eq)]
pub struct HandshakeRequest {
    pub protocol_major: u16,
    pub protocol_minor: u16,
    pub client_name: String,
    pub client_version: String,
    pub requested_capabilities: Vec<String>,
}

#[derive(Debug, Clone, PartialEq)]
pub enum ControlRequest {
    SystemHandshake(HandshakeRequest),
    SystemHealth,
    SystemStatus,
    SystemShutdown { operation_id: String },
    AccountList,
    AccountImport { source_path: String, display_name: String, operation_id: String },
    ProjectList,
    ProjectRegister { source_path: String, name: String, operation_id: String },
    ProjectArchive { project_id: String, operation_id: String },
    LaunchStart { account_id: String, project_id: String, operation_id: String },
    LaunchList,
    RecoveryScan { operation_id: String },
    RecoveryIncidentList { include_resolved: bool },
    RecoveryIncidentResolve { incident_id: String, action: String, operation_id: String },
    TerminalList { project_id: String },
    TerminalCreate { project_id: String, name: String, operation_id: String },
    TerminalHistory { terminal_id: String },
    TerminalClose { terminal_id: String, operation_id: String },
    ThreadRefresh { project_id: String, operation_id: String },
    ThreadList { project_id: String },
    UsageProbe { account_id: String },
    UsageRead { account_id: String },
    UsageRefresh { account_id: String, operation_id: String },
    UsageRefreshBatch { account_ids: Vec<String>, operation_id: String },
    DiagnosticsExport { operation_id: String },
}

/// A JSON-RPC 2.0 request carrying one control request.
#[derive(Debug, Clone, PartialEq)]
pub struct RpcRequest {
    pub jsonrpc: String,
    pub id: String,
    pub request: ControlRequest,
}

impl RpcRequest {
    pub fn new(id: &str, request: ControlRequest) -> (r: RpcRequest)
        ensures
            r.jsonrpc@ == "2.0"@,
            r.id@ == id@,
            r.request == request,
    {
        RpcRequest { jsonrpc: String::from_str("2.0"), id: String::from_str(id), request }
    }
}

/// A JSON-RPC 2.0 response: a result or a redacted error.
#[derive(Debug, Clone, PartialEq)]
pub struct RpcResponse {
    pub jsonrpc: String,
    pub id: String,
    pub body: RpcResponseBody,
}

#[derive(Debug, Clone, PartialEq)]
pub enum RpcResponseBody {
    Result { result: ControlResponse },
    Error { error: RpcError },
}

#[derive(Debug, Clone, PartialEq, Eq)]
pub struct RpcError {
    pub code: i32,
    pub message: String,
    pub data: RpcErrorData,
}

/// The machine-readable part of an error. Its safe details are always the
/// empty object, written as such on the wire.
#[derive(Debug, Clone, PartialEq, Eq)]
pub struct RpcErrorData {
    pub error_code: String,
    pub retryable: bool,
    pub user_action_required: bool,
    pub correlation_id: String,
}

#[derive(Debug, Clone, PartialEq, Eq)]
pub struct HandshakeResponse {
    pub protocol_major: u16,
    pub protocol_minor: u16,
    pub daemon_version: String,
    pub daemon_instance_id: String,
    pub granted_capabilities: Vec<String>,
    pub max_control_message_bytes: usize,
}

#[derive(Debug, Clone, PartialEq, Eq)]
pub struct HealthResponse {
    pub healthy: bool,
    pub database_integrity: String,
    pub schema_version: u32,
    pub daemon_instance_id: String,
}

#[derive(Debug, Clone, PartialEq, Eq)]
pub struct StatusResponse {
    pub daemon_instance_id: String,
    pub accounts: u64,
    pub projects: u64,
    pub launches: u64,
    pub recovery_incidents: u64,
    pub active_launches: u64,
}

#[derive(Debug, Clone, PartialEq)]
pub enum ControlResponse {
    Handshake(HandshakeResponse),
    Health(HealthResponse),
    Status(StatusResponse),
    Accounts(Vec<Account>),
    Account(Account),
    Projects(Vec<Project>),
    Project(Project),
    Launch(LaunchView),
    Launches(Vec<LaunchView>),
    Recovery(Vec<RecoveryResult>),
    RecoveryIncidents(Vec<RecoveryIncident>),
    RecoveryIncident(RecoveryIncident),
    Terminals(Vec<Terminal>),
    Terminal(Terminal),
    TerminalHistory { terminal_id: String, bytes: Vec<u8>, truncated: bool },
    Threads(Vec<ThreadIndex>),
    UsageProbe(CapabilityProbe),
    Usage(Option<UsageSnapshot>),
    UsageBatch(Vec<UsageRefreshResult>),
    Diagnostics(DiagnosticReceipt),
    Acknowledged,
}

/// A formal terminal data-plane request with its correlation id.
#[derive(Debug, Clone, PartialEq, Eq)]
pub struct TerminalDataRequestEnvelope {
    pub id: u64,
    pub request: TerminalDataRequest,
}

/// A formal terminal data-plane request. It names no shell command,
/// executable, path, tmux session or pane target.
#[derive(Debug, Clone, PartialEq, Eq)]
pub enum TerminalDataRequest {
    Handshake { protocol_major: u16, protocol_minor: u16, client_name: String },
    Attach { terminal_id: String },
    StartStream { stream: TerminalStream },
    Detach { stream: TerminalStream },
    Switch { terminal_id: String },
    SendInput { stream: TerminalStream, bytes: Vec<u8> },
    Resize { stream: TerminalStream, columns: u16, rows: u16 },
    Close { terminal_id: String },
    ReadState,
}

#[derive(Debug, Clone, PartialEq, Eq)]
pub struct TerminalStream {
    pub connection_id: String,
    pub attachment_id: u64,
    pub bootstrap_id: u64,
    pub project_id: String,
    pub terminal_id: String,
    pub window_id: String,
    pub pane_id: String,
}

#[derive(Debug, Clone, PartialEq, Eq)]
pub enum TerminalDataResponse {
    Handshake {
        protocol_major: u16,
        protocol_minor: u16,
        connection_id: String,
        tmux_version: String,
        max_message_bytes: usize,
    },
    Attached { stream: TerminalStream },
    StreamStarted { stream: TerminalStream },
    Detached,
    State { attached: Option<TerminalStream> },
    Closed { terminal_id: String },
    Acknowledged,
}

#[derive(Debug, Clone, PartialEq, Eq)]
pub struct TerminalDataError {
    pub code: String,
    pub message: String,
}

#[derive(Debug, Clone, PartialEq, Eq)]
pub enum TerminalDataEvent {
    History { stream: TerminalStream, sequence: u64, bytes: Vec<u8> },
    Output { stream: TerminalStream, sequence: u64, bytes: Vec<u8> },
    StreamClosed { stream: TerminalStream, sequence: u64 },
    StreamError { stream: TerminalStream, sequence: u64, code: String },
}

#[derive(Debug, Clone, PartialEq, Eq)]
pub enum TerminalDataFrame {
    Response { id: u64, result: TerminalDataResult },
    Event { event: TerminalDataEvent },
}

#[derive(Debug, Clone, PartialEq, Eq)]
pub enum TerminalDataResult {
    Success { response: TerminalDataResponse },
    Error { error: TerminalDataError },
}

/// A request over the retained gateway bridge.
#[derive(Debug, Clone, PartialEq, Eq)]
pub enum Phase3Request {
    Probe,
    CreateSyntheticSession { project_id: String },
    ListManagedSessions,
    CreateWindow { project_id: String, name: String },
    ListWindows { project_id: String },
    Attach { project_id: String, window_id: String },
    StartStream { stream: AttachedTerminal },
    Detach { stream: AttachedTerminal },
    SendInput { stream: AttachedTerminal, bytes: Vec<u8> },
    Resize { stream: AttachedTerminal, columns: u16, rows: u16 },
    CloseWindow { project_id: String, window_id: String },
    CleanupSession { project_id: String },
    ReadState,
}

#[derive(Debug, Clone, PartialEq, Eq)]
pub struct Phase3RequestEnvelope {
    pub id: u64,
    pub request: Phase3Request,
}

/// A managed session; its name is generated by the gateway.
#[derive(Debug, Clone, PartialEq, Eq)]
pub struct ManagedSession {
    pub project_id: String,
    pub session_name: String,
    pub session_id: String,
}

#[derive(Debug, Clone, PartialEq, Eq)]
pub struct ManagedWindow {
    pub id: String,
    pub name: String,
    pub active: bool,
}

#[derive(Debug, Clone, PartialEq, Eq)]
pub enum Phase3Response {
    Probe { connection_id: String, tmux_version: String },
    Sessions { sessions: Vec<ManagedSession> },
    Windows { windows: Vec<ManagedWindow> },
    Attached { stream: AttachedTerminal },
    StreamStarted { stream: AttachedTerminal },
    Detached,
    State { attached: Option<AttachedTerminal> },
    Acknowledged,
}

/// The current data-plane attachment.
#[derive(Debug, Clone, PartialEq, Eq)]
pub struct AttachedTerminal {
    pub connection_id: String,
    pub attachment_id: u64,
    pub bootstrap_id: u64,
    pub project_id: String,
    pub window_id: String,
    pub pane_id: String,
}

/// A structured failure; it never carries child-process output.
#[derive(Debug, Clone, PartialEq, Eq)]
pub struct Phase3Error {
    pub code: String,
    pub message: String,
}

#[derive(Debug, Clone, PartialEq, Eq)]
pub enum Phase3Event {
    History { stream: AttachedTerminal, sequence: u64, bytes: Vec<u8> },
    Output { stream: AttachedTerminal, sequence: u64, bytes: Vec<u8> },
    StreamClosed { stream: AttachedTerminal, sequence: u64 },
    StreamError { stream: AttachedTerminal, sequence: u64, code: String },
    ConnectionClosed { connection_id: String },
}

#[derive(Debug, Clone, PartialEq, Eq)]
pub enum Phase3Frame {
    Response { id: u64, result: ResultFrame },
    Event { event: Phase3Event },
}

#[derive(Debug, Clone, PartialEq, Eq)]
pub enum ResultFrame {
    Success { response: Phase3Response },
    Error { error: Phase3Error },
}


/// Negotiation grants exactly the requested capabilities that the protocol
/// defines: nothing unknown, nothing unrequested, nothing known and
/// requested left out.
pub proof fn lemma_granted_are_known_and_requested(requested: Seq<Seq<char>>, c: Seq<char>)
    ensures
        granted(requested).contains(c) <==> (requested.contains(c) && capability_names().contains(c)),
{
    let pred = |x: Seq<char>| capability_names().contains(x);
    if granted(requested).contains(c) {
        requested.lemma_filter_contains_rev(pred, c);
        let i = choose|i: int| 0 <= i < granted(requested).len() && granted(requested)[i] == c;
        requested.lemma_filter_pred(pred, i);
    }
    if requested.contains(c) && capability_names().contains(c) {
        let i = choose|i: int| 0 <= i < requested.len() && requested[i] == c;
        requested.lemma_filter_contains(pred, i);
    }
}

} // verus!
