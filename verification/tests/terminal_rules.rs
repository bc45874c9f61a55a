use muxlane_core::terminal::{
    auxiliary_command, check_session_identity, history_tail, runner_command,
    validate_terminal_name, validate_window_id, window_from_output, MAX_HISTORY_BYTES,
};

#[test]
fn rejects_tmux_target_and_name_injection() {
    for value in ["@1; kill-server", "1", "@-1", "@1.2"] {
        assert!(validate_window_id(value).is_err());
    }
    for value in ["bad;name", "bad\nname", "$(id)", "bad:name"] {
        assert!(validate_terminal_name(value).is_err());
    }
}

#[test]
fn accepts_plain_identities_and_names() {
    assert!(validate_window_id("@0").is_ok());
    assert_eq!(validate_window_id("@").unwrap_err().code, "INTERNAL_ERROR");
    assert!(validate_terminal_name("Build Shell_2-a").is_ok());
    assert_eq!(validate_terminal_name("").unwrap_err().code, "INVALID_REQUEST");
    assert!(validate_terminal_name(&"a".repeat(64)).is_ok());
    assert!(validate_terminal_name(&"a".repeat(65)).is_err());
}

#[test]
fn runner_commands_are_fixed_argument_lists() {
    let existing = runner_command(true, "muxlane-p1", "/srv/muxlane", "/usr/bin/muxlaned", "transaction_1");
    assert_eq!(
        existing,
        [
            "-L", "muxlane-runtime", "new-window", "-d", "-P", "-F", "#{window_id}", "-t",
            "muxlane-p1", "-n", "codex", "-e", "MUXLANE_DATA_DIR=/srv/muxlane", "--",
            "/usr/bin/muxlaned", "managed-runner", "--transaction-id", "transaction_1",
        ]
    );
    let fresh = runner_command(false, "muxlane-p1", "/srv/muxlane", "/usr/bin/muxlaned", "transaction_1");
    assert_eq!(fresh[2], "new-session");
    assert_eq!(fresh[7], "-s");
    assert_eq!(
        auxiliary_command("muxlane-p1", "logs"),
        ["-L", "muxlane-runtime", "new-window", "-d", "-P", "-F", "#{window_id}", "-t", "muxlane-p1", "-n", "logs"]
    );
}

#[test]
fn window_identities_are_read_back_and_checked() {
    assert_eq!(window_from_output(b"@12\n").unwrap(), "@12");
    assert_eq!(window_from_output(b"12\n").unwrap_err().code, "INTERNAL_ERROR");
    assert_eq!(window_from_output(b"\xff").unwrap_err().code, "INTERNAL_ERROR");
}

#[test]
fn history_keeps_only_the_newest_bytes() {
    assert_eq!(history_tail(b"abc"), b"abc".to_vec());
    let mut captured = vec![b'a'; 10];
    captured.extend(vec![b'b'; MAX_HISTORY_BYTES]);
    let tail = history_tail(&captured);
    assert_eq!(tail.len(), MAX_HISTORY_BYTES);
    assert!(tail.iter().all(|byte| *byte == b'b'));
}

#[test]
fn session_identity_must_match_the_project() {
    assert!(check_session_identity(true, b"project_1\n", "project_1").is_ok());
    assert_eq!(check_session_identity(true, b"project_2\n", "project_1").unwrap_err().code, "CONFLICT");
    assert_eq!(check_session_identity(false, b"project_1\n", "project_1").unwrap_err().code, "CONFLICT");
    assert!(check_session_identity(true, b"project_1\xff\n", "project_1").is_err());
    assert!(check_session_identity(true, b"  project_1 \n", "project_1").is_ok());
}
