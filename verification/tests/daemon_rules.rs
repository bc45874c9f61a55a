use muxlane_core::daemon::{
    accepts_envelope, admit_connection, check_handshake_first, error_flags, error_response,
    handshake, idempotent_step, read_control_line, success_response, validate_operation,
    IdempotentStep, MAX_CONTROL_CONNECTIONS,
};
use muxlane_core::error::CoreError;
use muxlane_core::protocol::{
    negotiate_capabilities, ControlResponse, HandshakeRequest, RpcResponseBody,
    MAX_CONTROL_MESSAGE_BYTES, PROTOCOL_MINOR,
};
use muxlane_core::storage::OperationClaim;

#[test]
fn control_line_reader_rejects_before_unbounded_allocation() {
    let oversized = vec![b'a'; MAX_CONTROL_MESSAGE_BYTES + 1];
    let error = read_control_line(&oversized).unwrap_err();
    assert_eq!(error.code, "INVALID_REQUEST");
    assert!(read_control_line(b"{}\n").unwrap().is_some());
}

#[test]
fn control_lines_end_at_the_first_newline_or_the_input() {
    assert_eq!(read_control_line(b"").unwrap(), None);
    assert_eq!(read_control_line(b"{}\n{\"x\":1}\n").unwrap(), Some("{}\n".to_owned()));
    assert_eq!(read_control_line(b"{}").unwrap(), Some("{}".to_owned()));
    let mut exact = vec![b'a'; MAX_CONTROL_MESSAGE_BYTES - 1];
    exact.push(b'\n');
    assert_eq!(read_control_line(&exact).unwrap().unwrap().len(), MAX_CONTROL_MESSAGE_BYTES);
    assert_eq!(read_control_line(b"\xff\n").unwrap_err().code, "STORAGE_FAILURE");
}

#[test]
fn handshake_rejects_incompatible_major_and_negotiates_capabilities() {
    let incompatible = HandshakeRequest {
        protocol_major: 99,
        protocol_minor: 0,
        client_name: "test".to_owned(),
        client_version: "1".to_owned(),
        requested_capabilities: vec![],
    };
    assert_eq!(handshake(&incompatible, "0.1.0", "daemon_fixture").unwrap_err().code, "PROTOCOL_INCOMPATIBLE");
    let compatible = HandshakeRequest {
        protocol_major: 1,
        protocol_minor: 99,
        client_name: "test".to_owned(),
        client_version: "1".to_owned(),
        requested_capabilities: vec!["core.read.v1".to_owned(), "future.v9".to_owned()],
    };
    let response = handshake(&compatible, "0.1.0", "daemon_fixture").unwrap();
    assert_eq!(response.protocol_minor, PROTOCOL_MINOR);
    assert_eq!(response.granted_capabilities, ["core.read.v1"]);
    assert_eq!(response.daemon_instance_id, "daemon_fixture");
    assert_eq!(response.max_control_message_bytes, MAX_CONTROL_MESSAGE_BYTES);
}

#[test]
fn capability_negotiation_keeps_order_and_drops_unknown_names() {
    let requested = vec!["terminal.v1".to_owned(), "nope".to_owned(), "core.read.v1".to_owned()];
    let granted = negotiate_capabilities(&requested);
    assert!(granted.iter().all(|name| requested.contains(name)));
    assert!(!granted.contains(&"nope".to_owned()));
    assert!(granted.contains(&"core.read.v1".to_owned()));
}

#[test]
fn operation_identifiers_are_prefixed_resource_identifiers() {
    assert!(validate_operation("operation_abc").is_ok());
    assert_eq!(validate_operation("abc").unwrap_err().code, "INVALID_REQUEST");
    assert_eq!(validate_operation("operation_ABC").unwrap_err().code, "INVALID_REQUEST");
    assert_eq!(validate_operation("").unwrap_err().code, "INVALID_REQUEST");
}

#[test]
fn requests_wait_for_the_handshake() {
    assert!(accepts_envelope("2.0", "1"));
    assert!(!accepts_envelope("1.0", "1"));
    assert!(!accepts_envelope("2.0", ""));
    assert_eq!(check_handshake_first(false, false).unwrap_err().code, "PERMISSION_DENIED");
    assert!(check_handshake_first(false, true).is_ok());
    assert!(check_handshake_first(true, false).is_ok());
}

#[test]
fn idempotent_operations_replay_or_refuse() {
    assert_eq!(idempotent_step(OperationClaim::New).unwrap(), IdempotentStep::Execute);
    assert_eq!(
        idempotent_step(OperationClaim::Completed("{\"ok\":true}".to_owned())).unwrap(),
        IdempotentStep::Replay("{\"ok\":true}".to_owned())
    );
    assert_eq!(idempotent_step(OperationClaim::InProgress).unwrap_err().code, "RECOVERY_REQUIRED");
}

#[test]
fn errors_are_redacted_with_stable_flags() {
    assert_eq!(error_flags("PROJECT_IN_USE"), (true, false));
    assert_eq!(error_flags("RECOVERY_REQUIRED"), (false, true));
    assert_eq!(error_flags("NOT_FOUND"), (false, false));
    let response = error_response("7", &CoreError::new("LOCKED", "secret detail"), "corr_x".to_owned());
    assert_eq!(response.jsonrpc, "2.0");
    assert_eq!(response.id, "7");
    match response.body {
        RpcResponseBody::Error { error } => {
            assert_eq!(error.code, -32041);
            assert_eq!(error.message, "The requested operation cannot proceed safely.");
            assert_eq!(error.data.error_code, "LOCKED");
            assert!(error.data.retryable);
            assert!(!error.data.user_action_required);
            assert_eq!(error.data.correlation_id, "corr_x");
        }
        RpcResponseBody::Result { .. } => panic!("expected an error"),
    }
    let ok = success_response("8", ControlResponse::Acknowledged);
    assert_eq!(ok.body, RpcResponseBody::Result { result: ControlResponse::Acknowledged });
}

#[test]
fn connections_are_bounded() {
    assert_eq!(admit_connection(0), Some(1));
    assert_eq!(admit_connection(MAX_CONTROL_CONNECTIONS - 1), Some(MAX_CONTROL_CONNECTIONS));
    assert_eq!(admit_connection(MAX_CONTROL_CONNECTIONS), None);
}
