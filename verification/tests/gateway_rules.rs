use muxlane_core::gateway::{
    check_sole_client, command_block_step, control_line_effect, parse_control_output, session_name,
    stream_end_code, synthetic_burst_count, target_for_ids, validate_pane_id, validate_project_id,
    validate_socket, validate_window_id, validate_window_name, BlockProgress, LineEffect,
    forward_step, ForwardEvent,
    OVERFLOW_BUFFER_BYTES, OVERFLOW_BUFFER_LINES, OVERFLOW_LINE_BYTES,
};

#[test]
fn rejects_target_injection_and_invalid_identifiers() {
    for invalid in ["", "A", "project_a", "project;id", "project$(id)", "project name"] {
        assert!(validate_project_id(invalid).is_err(), "{invalid} must be rejected");
    }
    assert!(validate_socket("muxlane-p3-test-1").is_ok());
    assert!(validate_socket("../default").is_err());
    assert!(validate_window_id("@17").is_ok());
    assert!(validate_window_id("@17;kill-server").is_err());
    assert!(validate_pane_id("%17").is_ok());
    assert!(validate_pane_id("%17:kill").is_err());
    assert!(target_for_ids("project-a", "@17").is_ok());
}

#[test]
fn decodes_tmux_control_mode_output_without_utf8_assumptions() {
    assert_eq!(
        parse_control_output("%0 hello\\015\\012中文 😀".as_bytes()),
        Some(("%0".to_owned(), "hello\r\n中文 😀".as_bytes().to_vec()))
    );
    assert_eq!(parse_control_output(b"%0 \\999"), None);
    assert_eq!(parse_control_output(b"%0 \xe4"), Some(("%0".to_owned(), vec![0xe4])));
}

#[test]
fn bounds_synthetic_burst_requests() {
    assert_eq!(synthetic_burst_count(b"BURST 2048\n"), Some(2048));
    assert_eq!(synthetic_burst_count(b"BURST 2049\n"), None);
    assert_eq!(synthetic_burst_count(b"OTHER 20\n"), None);
}

#[test]
fn managed_names_and_targets_are_built_from_validated_parts() {
    assert_eq!(session_name("project-a").unwrap(), "mlp3-project-a");
    assert_eq!(target_for_ids("project-a", "@17").unwrap(), "mlp3-project-a:@17");
    let error = session_name("Project").unwrap_err();
    assert_eq!(error.code, "validation");
    assert_eq!(error.message, "invalid project id");
    assert_eq!(validate_window_name("aux-1"), Ok(()));
    assert_eq!(validate_window_name("1aux").unwrap_err().message, "invalid window name");
    assert_eq!(validate_socket(&"a".repeat(48)), Ok(()));
    assert!(validate_socket(&"a".repeat(49)).is_err());
    assert!(validate_window_id("@").is_err());
    assert!(validate_pane_id("%").is_err());
    assert!(target_for_ids("project-a", "%17").is_err());
}

#[test]
fn decodes_every_octal_escape_and_rejects_incomplete_ones() {
    assert_eq!(parse_control_output(b"%3 \\101\\377\\000"), Some(("%3".to_owned(), vec![65, 255, 0])));
    assert_eq!(parse_control_output(b"%3 \\12"), None);
    assert_eq!(parse_control_output(b"%3"), None);
    assert_eq!(parse_control_output(b"@3 x"), None);
    assert_eq!(parse_control_output(b"%3 "), Some(("%3".to_owned(), vec![])));
}

#[test]
fn command_blocks_complete_only_with_their_own_number() {
    let (expected, progress) = command_block_step(None, b"%begin 1700000000 42 1");
    assert_eq!(expected.as_deref(), Some("42"));
    assert_eq!(progress, BlockProgress::Pending);
    let (expected, progress) = command_block_step(expected, b"%end 1700000000 41 1");
    assert_eq!(progress, BlockProgress::Pending);
    let (expected, progress) = command_block_step(expected, b"%output %1 hello");
    assert_eq!(progress, BlockProgress::Pending);
    let (_, progress) = command_block_step(expected.clone(), b"%end 1700000000 42 1");
    assert_eq!(progress, BlockProgress::Completed);
    let (_, progress) = command_block_step(expected, b"%error 1700000000 42 1");
    assert_eq!(progress, BlockProgress::Failed);
    let (kept, progress) = command_block_step(Some("7".to_owned()), b"\xff\xfe");
    assert_eq!(kept.as_deref(), Some("7"));
    assert_eq!(progress, BlockProgress::Pending);
}

#[test]
fn control_lines_drive_only_their_own_stream() {
    assert_eq!(control_line_effect(b"%output %1 hi\\012", "%1", "@3"), LineEffect::Output(b"hi\n".to_vec()));
    assert_eq!(control_line_effect(b"%output %2 hi", "%1", "@3"), LineEffect::Skip);
    assert_eq!(control_line_effect(b"%exit", "%1", "@3"), LineEffect::Closed);
    assert_eq!(control_line_effect(b"%exit server exited", "%1", "@3"), LineEffect::Closed);
    assert_eq!(control_line_effect(b"%window-close @3", "%1", "@3"), LineEffect::Closed);
    assert_eq!(control_line_effect(b"%unlinked-window-close @3", "%1", "@3"), LineEffect::Closed);
    assert_eq!(control_line_effect(b"%window-close @4", "%1", "@3"), LineEffect::Skip);
    let mut large = b"%output %1 ".to_vec();
    large.extend(std::iter::repeat(b'x').take(65537));
    assert_eq!(control_line_effect(&large, "%1", "@3"), LineEffect::TooLarge);
}

#[test]
fn stream_end_codes_name_the_overflow() {
    assert_eq!(stream_end_code(OVERFLOW_LINE_BYTES), "output_control_line_too_large");
    assert_eq!(stream_end_code(OVERFLOW_BUFFER_BYTES), "output_buffer_byte_limit");
    assert_eq!(stream_end_code(OVERFLOW_BUFFER_LINES), "output_buffer_line_limit");
    assert_eq!(stream_end_code(0), "control_mode_disconnected");
}

#[test]
fn burst_requests_accept_surrounding_space_and_a_plus_sign() {
    assert_eq!(synthetic_burst_count(b"  BURST +12  "), Some(12));
    assert_eq!(synthetic_burst_count(b"BURST 0"), Some(0));
    assert_eq!(synthetic_burst_count(b"BURST -1"), None);
    assert_eq!(synthetic_burst_count(b"BURST 99999"), None);
    assert_eq!(synthetic_burst_count(b"\xffBURST 1"), None);
}

#[test]
fn an_attachment_needs_the_only_control_client() {
    assert!(check_sole_client("1\n").is_ok());
    assert!(check_sole_client("1").is_ok());
    assert_eq!(check_sole_client("1\n1\n").unwrap_err().code, "conflict");
    assert_eq!(check_sole_client("").unwrap_err().code, "conflict");
}

#[test]
fn forwarded_events_are_numbered_without_gaps() {
    let lines = [
        LineEffect::Output(b"a".to_vec()),
        LineEffect::Skip,
        LineEffect::Output(b"b".to_vec()),
        LineEffect::Output(b"c".to_vec()),
        LineEffect::Closed,
        LineEffect::Output(b"late".to_vec()),
    ];
    let mut sequence = 1_u64;
    let mut numbers = Vec::new();
    for effect in lines {
        let step = forward_step(sequence, effect);
        match step.event {
            ForwardEvent::Nothing => {}
            ForwardEvent::Output(n, _) | ForwardEvent::TooLarge(n) | ForwardEvent::Closed(n) => numbers.push(n),
        }
        if step.stop {
            break;
        }
        sequence = step.next_sequence;
    }
    assert_eq!(numbers, vec![1, 2, 3, 4]);
}

#[test]
fn oversized_output_ends_the_stream_under_its_number() {
    let step = forward_step(7, LineEffect::TooLarge);
    assert_eq!(step.event, ForwardEvent::TooLarge(7));
    assert!(step.stop);
    let output = forward_step(u64::MAX, LineEffect::Output(vec![1]));
    assert_eq!(output.event, ForwardEvent::Output(u64::MAX, vec![1]));
    assert_eq!(output.next_sequence, u64::MAX);
    assert!(!output.stop);
    let skip = forward_step(3, LineEffect::Skip);
    assert_eq!(skip.event, ForwardEvent::Nothing);
    assert_eq!(skip.next_sequence, 3);
}
