//! The formal terminal data plane over the bounded gateway: stable terminal
//! identities are routed to managed tmux windows, and a stream identity is
//! honoured only while it matches the current route.

use vstd::prelude::*;
use vstd::string::*;

use crate::error::{CoreError, CoreResult};
use crate::layout::{is_valid_id, validate_id};
use crate::model::{Project, Terminal};
use crate::storage::{read_from, Storage};
use crate::protocol::{
    AttachedTerminal, Phase3Error, Phase3Event, TerminalDataError, TerminalDataEvent,
    TerminalStream,
};
use crate::text::{has_control, skip_chars, starts_with_str, str_eq, str_has_control};

verus! {

/// The tmux socket of the formal data plane.
pub const FORMAL_TMUX_SOCKET: &'static str = "muxlane-runtime";

/// The prefix of every managed session name on the formal socket.
pub const FORMAL_SESSION_PREFIX: &'static str = "muxlane-";

/// Where a stable terminal identity currently leads.
#[derive(Debug, Clone, PartialEq, Eq)]
pub struct Route {
    pub project_id: String,
    pub terminal_id: String,
    /// The project's session name without the managed prefix.
    pub project_key: String,
    pub window_id: String,
}

/// A data-plane error with a code and a message.
pub fn formal_error(code: &str, message: &str) -> (e: TerminalDataError)
    ensures
        e.code@ == code@,
        e.message@ == message@,
{
    TerminalDataError { code: String::from_str(code), message: String::from_str(message) }
}

/// A core error as the data plane reports it.
pub fn map_core_error(error: CoreError) -> (e: TerminalDataError)
    ensures
        e.code@ == error.code@,
        e.message@ == error.message@,
{
    formal_error(error.code, error.message.as_str())
}

/// The data-plane code of a gateway error code.
pub open spec fn formal_code(code: Seq<char>) -> Seq<char> {
    if code == "validation"@ {
        "INVALID_REQUEST"@
    } else if code == "unavailable"@ {
        "CAPABILITY_UNAVAILABLE"@
    } else if code == "not_found"@ {
        "NOT_FOUND"@
    } else if code == "conflict"@ {
        "CONFLICT"@
    } else if code == "state"@ {
        "INVALID_STATE"@
    } else if code == "stale_stream"@ {
        "STALE_STREAM"@
    } else {
        "INTERNAL_ERROR"@
    }
}

/// A gateway error as the data plane reports it: its code mapped, its
/// message kept.
pub fn map_error(error: Phase3Error) -> (e: TerminalDataError)
    ensures
        e.code@ == formal_code(error.code@),
        e.message@ == error.message@,
{
    let c = error.code.as_str();
    let code = if str_eq(c, "validation") {
        "INVALID_REQUEST"
    } else if str_eq(c, "unavailable") {
        "CAPABILITY_UNAVAILABLE"
    } else if str_eq(c, "not_found") {
        "NOT_FOUND"
    } else if str_eq(c, "conflict") {
        "CONFLICT"
    } else if str_eq(c, "state") {
        "INVALID_STATE"
    } else if str_eq(c, "stale_stream") {
        "STALE_STREAM"
    } else {
        "INTERNAL_ERROR"
    };
    formal_error(code, error.message.as_str())
}

/// A gateway failure while the data plane starts.
pub fn core_from_gateway(error: Phase3Error) -> (e: CoreError)
    ensures
        e.code@ == "CAPABILITY_UNAVAILABLE"@,
        e.message@ == error.message@,
{
    CoreError::new("CAPABILITY_UNAVAILABLE", error.message.as_str())
}

/// A client name the data plane accepts: 1 to 64 bytes, no control
/// characters.
pub open spec fn is_client_name(name: &str) -> bool {
    0 < name.spec_bytes().len() <= 64 && !has_control(name@)
}

/// The data-plane handshake check: the protocol major version must match and
/// the client must name itself acceptably.
pub fn check_handshake(protocol_major: u16, client_name: &str) -> (r: Result<(), TerminalDataError>)
    ensures
        r is Ok <==> protocol_major == crate::protocol::TERMINAL_DATA_PROTOCOL_MAJOR
            && is_client_name(client_name),
        r matches Err(e) ==> e.code@ == "PROTOCOL_INCOMPATIBLE"@,
{
    let length = client_name.as_bytes().len();
    if protocol_major != crate::protocol::TERMINAL_DATA_PROTOCOL_MAJOR || length == 0 || length > 64
        || str_has_control(client_name) {
        return Err(formal_error("PROTOCOL_INCOMPATIBLE", "Terminal data protocol is incompatible"));
    }
    Ok(())
}

/// Every data-plane request but the handshake waits for a handshake.
pub fn check_first_request(handshaken: bool, is_handshake: bool) -> (r: Result<(), TerminalDataError>)
    ensures
        r is Ok <==> handshaken || is_handshake,
        r matches Err(e) ==> e.code@ == "PROTOCOL_INCOMPATIBLE"@,
{
    if !handshaken && !is_handshake {
        return Err(
            formal_error("PROTOCOL_INCOMPATIBLE", "terminal.handshake must be the first request"),
        );
    }
    Ok(())
}

/// A closed terminal cannot be attached.
pub fn check_attachable(terminal: &Terminal) -> (r: Result<(), TerminalDataError>)
    ensures
        r is Ok <==> terminal.lifecycle_status@ != "closed"@,
        r matches Err(e) ==> e.code@ == "INVALID_STATE"@,
{
    if str_eq(terminal.lifecycle_status.as_str(), "closed") {
        return Err(formal_error("INVALID_STATE", "Terminal is closed"));
    }
    Ok(())
}

/// The route of a terminal in its project: the project's managed session,
/// named with the formal prefix, and the terminal's window.
pub fn route_for(project: &Project, terminal: &Terminal) -> (r: CoreResult<Route>)
    ensures
        r is Ok <==> project.tmux_session_name@.len() >= 8 && project.tmux_session_name@.take(8)
            == "muxlane-"@,
        r matches Ok(route) ==> route.project_id@ == terminal.project_id@ && route.terminal_id@
            == terminal.terminal_id@ && route.project_key@ == project.tmux_session_name@.skip(8)
            && route.window_id@ == terminal.tmux_window_identity@,
        r matches Err(e) ==> e.code@ == "INTERNAL_ERROR"@,
{
    proof {
        reveal_strlit("muxlane-");
    }
    let session = project.tmux_session_name.as_str();
    if !starts_with_str(session, FORMAL_SESSION_PREFIX) {
        return Err(CoreError::new("INTERNAL_ERROR", "Project tmux identity is invalid"));
    }
    Ok(
        Route {
            project_id: terminal.project_id.clone(),
            terminal_id: terminal.terminal_id.clone(),
            project_key: skip_chars(session, 8).to_string(),
            window_id: terminal.tmux_window_identity.clone(),
        },
    )
}

/// A data-plane stream matches the current route when it names the route's
/// project, terminal and window.
pub open spec fn stream_on_route(stream: TerminalStream, route: Route) -> bool {
    stream.project_id@ == route.project_id@ && stream.terminal_id@ == route.terminal_id@
        && stream.window_id@ == route.window_id@
}

/// A gateway stream matches the current route when it names the route's
/// session key and window.
pub open spec fn attachment_on_route(stream: AttachedTerminal, route: Route) -> bool {
    stream.project_id@ == route.project_key@ && stream.window_id@ == route.window_id@
}

/// The gateway stream behind a data-plane stream, refused unless the stream
/// matches the current route.
pub fn to_phase_stream(stream: &TerminalStream, route: Option<&Route>) -> (r: Result<
    AttachedTerminal,
    TerminalDataError,
>)
    ensures
        r is Ok <==> (route matches Some(rt) && stream_on_route(*stream, *rt)),
        r matches Ok(a) ==> route matches Some(rt) && a.connection_id@ == stream.connection_id@
            && a.attachment_id == stream.attachment_id && a.bootstrap_id == stream.bootstrap_id
            && a.project_id@ == rt.project_key@ && a.window_id@ == stream.window_id@ && a.pane_id@
            == stream.pane_id@,
        r matches Err(e) ==> e.code@ == "STALE_STREAM"@,
{
    let route = match route {
        Some(route) => route,
        None => {
            return Err(formal_error("STALE_STREAM", "Terminal stream identity is stale"));
        },
    };
    if !str_eq(stream.project_id.as_str(), route.project_id.as_str()) || !str_eq(
        stream.terminal_id.as_str(),
        route.terminal_id.as_str(),
    ) || !str_eq(stream.window_id.as_str(), route.window_id.as_str()) {
        return Err(formal_error("STALE_STREAM", "Terminal stream identity is stale"));
    }
    Ok(
        AttachedTerminal {
            connection_id: stream.connection_id.clone(),
            attachment_id: stream.attachment_id,
            bootstrap_id: stream.bootstrap_id,
            project_id: route.project_key.clone(),
            window_id: stream.window_id.clone(),
            pane_id: stream.pane_id.clone(),
        },
    )
}

/// `s` is the data-plane stream of gateway stream `a` on route `rt`: the
/// connection, attachment, bootstrap, window and pane of `a`, under the
/// route's project and terminal.
pub open spec fn routed_stream(a: AttachedTerminal, rt: Route, s: TerminalStream) -> bool {
    s.connection_id@ == a.connection_id@ && s.attachment_id == a.attachment_id && s.bootstrap_id
        == a.bootstrap_id && s.project_id@ == rt.project_id@ && s.terminal_id@ == rt.terminal_id@
        && s.window_id@ == a.window_id@ && s.pane_id@ == a.pane_id@
}

/// The data-plane stream of a gateway stream, refused unless the stream
/// matches the current route.
pub fn from_phase_stream(stream: &AttachedTerminal, route: Option<&Route>) -> (r: Result<
    TerminalStream,
    TerminalDataError,
>)
    ensures
        r is Ok <==> (route matches Some(rt) && attachment_on_route(*stream, *rt)),
        r matches Ok(s) ==> route matches Some(rt) && s.connection_id@ == stream.connection_id@
            && s.attachment_id == stream.attachment_id && s.bootstrap_id == stream.bootstrap_id
            && s.project_id@ == rt.project_id@ && s.terminal_id@ == rt.terminal_id@ && s.window_id@
            == stream.window_id@ && s.pane_id@ == stream.pane_id@,
        r matches Ok(s) ==> route matches Some(rt) && routed_stream(*stream, *rt, s),
        r matches Err(e) ==> e.code@ == "STALE_STREAM"@,
{
    let route = match route {
        Some(route) => route,
        None => {
            return Err(formal_error("STALE_STREAM", "Terminal stream route is unavailable"));
        },
    };
    if !str_eq(stream.project_id.as_str(), route.project_key.as_str()) || !str_eq(
        stream.window_id.as_str(),
        route.window_id.as_str(),
    ) {
        return Err(formal_error("STALE_STREAM", "Terminal stream identity is stale"));
    }
    Ok(
        TerminalStream {
            connection_id: stream.connection_id.clone(),
            attachment_id: stream.attachment_id,
            bootstrap_id: stream.bootstrap_id,
            project_id: route.project_id.clone(),
            terminal_id: route.terminal_id.clone(),
            window_id: stream.window_id.clone(),
            pane_id: stream.pane_id.clone(),
        },
    )
}

/// Same stream identity, field by field.
pub open spec fn same_stream(a: TerminalStream, b: TerminalStream) -> bool {
    a.connection_id@ == b.connection_id@ && a.attachment_id == b.attachment_id && a.bootstrap_id
        == b.bootstrap_id && a.project_id@ == b.project_id@ && a.terminal_id@ == b.terminal_id@
        && a.window_id@ == b.window_id@ && a.pane_id@ == b.pane_id@
}

/// A stream accepted on the current route comes back from the gateway as
/// the same data-plane stream: routing loses nothing of its identity.
pub proof fn lemma_stream_routing_round_trips(
    stream: TerminalStream,
    route: Route,
    attached: AttachedTerminal,
    back: TerminalStream,
)
    requires
        stream_on_route(stream, route),
        attached.connection_id@ == stream.connection_id@,
        attached.attachment_id == stream.attachment_id,
        attached.bootstrap_id == stream.bootstrap_id,
        attached.project_id@ == route.project_key@,
        attached.window_id@ == stream.window_id@,
        attached.pane_id@ == stream.pane_id@,
        back.connection_id@ == attached.connection_id@,
        back.attachment_id == attached.attachment_id,
        back.bootstrap_id == attached.bootstrap_id,
        back.project_id@ == route.project_id@,
        back.terminal_id@ == route.terminal_id@,
        back.window_id@ == attached.window_id@,
        back.pane_id@ == attached.pane_id@,
    ensures
        attachment_on_route(attached, route),
        same_stream(back, stream),
{
}

/// A gateway stream on the current route becomes a data-plane stream on that
/// route which keeps the gateway's window and pane in their places, and
/// routing it back gives the same gateway stream.
pub proof fn lemma_routed_stream_keeps_identity(a: AttachedTerminal, rt: Route, s: TerminalStream)
    requires
        attachment_on_route(a, rt),
        routed_stream(a, rt, s),
    ensures
        stream_on_route(s, rt),
        s.window_id@ == a.window_id@,
        s.pane_id@ == a.pane_id@,
        s.connection_id@ == a.connection_id@,
        s.attachment_id == a.attachment_id,
        s.bootstrap_id == a.bootstrap_id,
{
}

/// A gateway event as a data-plane event, for the current route; events of
/// other streams, and the connection's close, are dropped.
pub fn map_event(event: Phase3Event, route: Option<&Route>) -> (r: Option<TerminalDataEvent>)
    ensures
        event is ConnectionClosed ==> r is None,
        r matches Some(TerminalDataEvent::History { stream, sequence, bytes }) ==> event matches Phase3Event::History { sequence: s, bytes: b, .. } && s == sequence && b == bytes,
        r matches Some(TerminalDataEvent::Output { stream, sequence, bytes }) ==> event matches Phase3Event::Output { sequence: s, bytes: b, .. } && s == sequence && b == bytes,
        r matches Some(TerminalDataEvent::StreamClosed { stream, sequence }) ==> event matches Phase3Event::StreamClosed { sequence: s, .. } && s == sequence,
        r matches Some(TerminalDataEvent::StreamError { stream, sequence, code }) ==> event matches Phase3Event::StreamError { sequence: s, code: c, .. } && s == sequence && c == code,
        r matches Some(TerminalDataEvent::History { stream, .. }) ==> event matches Phase3Event::History { stream: a, .. } && route matches Some(rt) && routed_stream(a, *rt, stream),
        r matches Some(TerminalDataEvent::Output { stream, .. }) ==> event matches Phase3Event::Output { stream: a, .. } && route matches Some(rt) && routed_stream(a, *rt, stream),
        r matches Some(TerminalDataEvent::StreamClosed { stream, .. }) ==> event matches Phase3Event::StreamClosed { stream: a, .. } && route matches Some(rt) && routed_stream(a, *rt, stream),
        r matches Some(TerminalDataEvent::StreamError { stream, .. }) ==> event matches Phase3Event::StreamError { stream: a, .. } && route matches Some(rt) && routed_stream(a, *rt, stream),
        match event {
            Phase3Event::History { stream, .. } => (r is Some <==> (route matches Some(rt) && attachment_on_route(stream, *rt))),
            Phase3Event::Output { stream, .. } => (r is Some <==> (route matches Some(rt) && attachment_on_route(stream, *rt))),
            Phase3Event::StreamClosed { stream, .. } => (r is Some <==> (route matches Some(rt) && attachment_on_route(stream, *rt))),
            Phase3Event::StreamError { stream, .. } => (r is Some <==> (route matches Some(rt) && attachment_on_route(stream, *rt))),
            Phase3Event::ConnectionClosed { .. } => true,
        },
{
    match event {
        Phase3Event::History { stream, sequence, bytes } => match from_phase_stream(&stream, route) {
            Ok(s) => Some(TerminalDataEvent::History { stream: s, sequence, bytes }),
            Err(_) => None,
        },
        Phase3Event::Output { stream, sequence, bytes } => match from_phase_stream(&stream, route) {
            Ok(s) => Some(TerminalDataEvent::Output { stream: s, sequence, bytes }),
            Err(_) => None,
        },
        Phase3Event::StreamClosed { stream, sequence } => match from_phase_stream(&stream, route) {
            Ok(s) => Some(TerminalDataEvent::StreamClosed { stream: s, sequence }),
            Err(_) => None,
        },
        Phase3Event::StreamError { stream, sequence, code } => match from_phase_stream(&stream, route) {
            Ok(s) => Some(TerminalDataEvent::StreamError { stream: s, sequence, code }),
            Err(_) => None,
        },
        Phase3Event::ConnectionClosed { .. } => None,
    }
}

/// The terminal a data-plane request names, read after its identifier is
/// checked; when it is to be attached it must not be closed.
pub fn requested_terminal(storage: &mut Storage, terminal_id: &str, attaching: bool) -> (r: Result<
    Terminal,
    TerminalDataError,
>)
    ensures
        read_from(*old(storage), *final(storage)),
        !is_valid_id(terminal_id.spec_bytes()) ==> (r matches Err(e) && e.code@ == "INVALID_REQUEST"@),
        r matches Ok(t) ==> !attaching || t.lifecycle_status@ != "closed"@,
{
    if let Err(error) = validate_id(terminal_id) {
        return Err(map_core_error(error));
    }
    let terminal = match storage.terminal(terminal_id) {
        Ok(terminal) => terminal,
        Err(error) => {
            return Err(map_core_error(error));
        },
    };
    if attaching {
        check_attachable(&terminal)?;
    }
    Ok(terminal)
}

/// The route of a stored terminal, through its project's managed session.
pub fn terminal_route(storage: &mut Storage, terminal: &Terminal) -> (r: Result<Route, TerminalDataError>)
    ensures
        read_from(*old(storage), *final(storage)),
        r matches Ok(route) ==> route.project_id@ == terminal.project_id@ && route.terminal_id@
            == terminal.terminal_id@ && route.window_id@ == terminal.tmux_window_identity@,
{
    let project = match storage.project(terminal.project_id.as_str()) {
        Ok(project) => project,
        Err(error) => {
            return Err(map_core_error(error));
        },
    };
    match route_for(&project, terminal) {
        Ok(route) => Ok(route),
        Err(error) => Err(map_core_error(error)),
    }
}

} // verus!
