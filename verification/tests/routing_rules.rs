use muxlane_core::model::{Project, Terminal};
use muxlane_core::protocol::{
    AttachedTerminal, Phase3Error, Phase3Event, TerminalDataEvent, TerminalStream,
};
use muxlane_core::terminal_data::{
    check_attachable, check_first_request, check_handshake, from_phase_stream, map_error,
    map_event, route_for, to_phase_stream, Route,
};

fn project(session: &str) -> Project {
    Project {
        project_id: "project_1".to_owned(),
        name: "demo".to_owned(),
        canonical_windows_path: None,
        canonical_wsl_path: "/home/u/demo".to_owned(),
        runtime_relative_path: "projects/project_1".to_owned(),
        tmux_session_name: session.to_owned(),
        active: false,
        archived_at: None,
        created_at: 1,
        updated_at: 1,
    }
}

fn terminal(status: &str) -> Terminal {
    Terminal {
        terminal_id: "terminal_1".to_owned(),
        project_id: "project_1".to_owned(),
        kind: "codex".to_owned(),
        display_name: "Codex".to_owned(),
        tmux_window_identity: "@4".to_owned(),
        lifecycle_status: status.to_owned(),
        created_at: 1,
        closed_at: None,
    }
}

fn stream() -> TerminalStream {
    TerminalStream {
        connection_id: "connection-7".to_owned(),
        attachment_id: 3,
        bootstrap_id: 3,
        project_id: "project_1".to_owned(),
        terminal_id: "terminal_1".to_owned(),
        window_id: "@4".to_owned(),
        pane_id: "%9".to_owned(),
    }
}

fn route() -> Route {
    route_for(&project("muxlane-p1"), &terminal("running")).unwrap()
}

#[test]
fn routes_strip_the_managed_prefix() {
    let r = route();
    assert_eq!(r.project_key, "p1");
    assert_eq!(r.window_id, "@4");
    assert_eq!(route_for(&project("other-p1"), &terminal("running")).unwrap_err().code, "INTERNAL_ERROR");
}

#[test]
fn streams_round_trip_through_the_current_route() {
    let r = route();
    let attached = to_phase_stream(&stream(), Some(&r)).unwrap();
    assert_eq!(attached.project_id, "p1");
    assert_eq!(from_phase_stream(&attached, Some(&r)).unwrap(), stream());
    let mut stale = stream();
    stale.terminal_id = "terminal_2".to_owned();
    assert_eq!(to_phase_stream(&stale, Some(&r)).unwrap_err().code, "STALE_STREAM");
    assert_eq!(to_phase_stream(&stream(), None).unwrap_err().code, "STALE_STREAM");
}

#[test]
fn events_of_other_streams_are_dropped() {
    let r = route();
    let attached = to_phase_stream(&stream(), Some(&r)).unwrap();
    let output = map_event(Phase3Event::Output { stream: attached.clone(), sequence: 5, bytes: b"x".to_vec() }, Some(&r));
    assert_eq!(output, Some(TerminalDataEvent::Output { stream: stream(), sequence: 5, bytes: b"x".to_vec() }));
    let other = AttachedTerminal { window_id: "@5".to_owned(), ..attached };
    assert_eq!(map_event(Phase3Event::StreamClosed { stream: other, sequence: 1 }, Some(&r)), None);
    assert_eq!(map_event(Phase3Event::ConnectionClosed { connection_id: "c".to_owned() }, Some(&r)), None);
}

#[test]
fn gateway_errors_map_to_formal_codes() {
    let cases = [
        ("validation", "INVALID_REQUEST"),
        ("unavailable", "CAPABILITY_UNAVAILABLE"),
        ("not_found", "NOT_FOUND"),
        ("conflict", "CONFLICT"),
        ("state", "INVALID_STATE"),
        ("stale_stream", "STALE_STREAM"),
        ("bridge", "INTERNAL_ERROR"),
    ];
    for (code, formal) in cases {
        let mapped = map_error(Phase3Error { code: code.to_owned(), message: "m".to_owned() });
        assert_eq!(mapped.code, formal);
        assert_eq!(mapped.message, "m");
    }
}

#[test]
fn data_plane_handshake_and_attach_checks() {
    assert!(check_handshake(1, "integration-test").is_ok());
    assert_eq!(check_handshake(2, "integration-test").unwrap_err().code, "PROTOCOL_INCOMPATIBLE");
    assert!(check_handshake(1, "").is_err());
    assert!(check_handshake(1, "bad\u{1b}name").is_err());
    assert!(check_handshake(1, &"n".repeat(65)).is_err());
    assert_eq!(check_first_request(false, false).unwrap_err().code, "PROTOCOL_INCOMPATIBLE");
    assert!(check_first_request(false, true).is_ok());
    assert!(check_attachable(&terminal("running")).is_ok());
    assert_eq!(check_attachable(&terminal("closed")).unwrap_err().code, "INVALID_STATE");
}
