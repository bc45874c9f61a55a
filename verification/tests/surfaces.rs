use muxlane_core::bridge::{
    acknowledged, bridge_error, display_error, BRIDGE_SOCKET, EVENT_NAME, GATEWAY_EXECUTABLE,
    MAX_PENDING_REQUESTS, WSL_ENV,
};
use muxlane_core::desktop::{close_action, environment_check, CloseAction, MAX_PENDING};
use muxlane_core::protocol::Phase3Response;

#[test]
fn bridge_contract_is_fixed_and_bounded() {
    assert_eq!(BRIDGE_SOCKET, "muxlane-p3");
    assert_eq!(WSL_ENV, "/usr/bin/env");
    assert_eq!(GATEWAY_EXECUTABLE, "muxlaned");
    assert_eq!(EVENT_NAME, "phase3-terminal-frame");
    assert_eq!(MAX_PENDING_REQUESTS, 32);
}

#[test]
fn desktop_surface_uses_fixed_executables_and_bounded_messages() {
    assert_eq!(muxlane_core::desktop::EVENT_NAME, "muxlane-terminal-frame");
    assert_eq!(MAX_PENDING, 32);
}

#[test]
fn bridge_answers_and_errors_are_fixed() {
    assert_eq!(acknowledged(Phase3Response::Acknowledged), Ok(()));
    assert_eq!(
        acknowledged(Phase3Response::Detached),
        Err("Phase 3 bridge returned an unexpected acknowledgement".to_owned())
    );
    let error = bridge_error("gateway exited");
    assert_eq!(error.code, "bridge");
    assert_eq!(display_error(error), "bridge: gateway exited");
}

#[test]
fn environment_checks_report_the_first_version_line() {
    let ready = environment_check("tmux", true, b"  tmux 3.4\r\nextra\n");
    assert_eq!(ready.status, "ready");
    assert_eq!(ready.version.as_deref(), Some("tmux 3.4"));
    assert_eq!(ready.suggestion, None);
    let blank = environment_check("tmux", true, b"\n");
    assert_eq!(blank.version, None);
    let missing = environment_check("codex", false, b"codex 1.0");
    assert_eq!(missing.status, "unavailable");
    assert_eq!(missing.version, None);
    assert!(missing.suggestion.is_some());
}

#[test]
fn close_actions_are_a_closed_set() {
    assert_eq!(close_action("background"), Ok(CloseAction::Background));
    assert_eq!(close_action("exit"), Ok(CloseAction::Exit));
    assert_eq!(close_action("cancel"), Ok(CloseAction::Cancel));
    assert_eq!(close_action("quit"), Err("close action is invalid".to_owned()));
}
