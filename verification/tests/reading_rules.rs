use muxlane_core::client::{client_handshake, new_operation_id, reply_result, request_id};
use muxlane_core::gateway::{
    check_input_size, check_resize, check_stream_live, check_stream_start, closes_attachment,
    input_commands, managed_sessions, managed_windows, new_attachment, refresh_command,
    resize_arguments, single_pane, target_for_ids, tmux_version_text, window_target,
};
use muxlane_core::json::{app_server_line, app_server_reply, find_key, get_member, JsonNumber, JsonValue};
use muxlane_core::model::{CapabilityProbe, UsageRefreshResult, WorkspaceEntry};
use muxlane_core::order::{sort_by_keys, str_le};
use muxlane_core::protocol::{
    AttachedTerminal, ControlRequest, ControlResponse, ManagedWindow, RpcError, RpcErrorData,
    RpcResponse, RpcResponseBody,
};
use muxlane_core::text::{decimal, find_char, lines_of, split_text};
use muxlane_core::usage::{normalize_usage, refresh_outcome, sort_refresh_results};
use muxlane_core::workspace::{
    check_confined, entry_kind, listing_order, name_matches, search_order, workspace_entry,
};
use muxlane_core::error::CoreError;

fn num(value: u64) -> JsonValue {
    JsonValue::Number(JsonNumber { unsigned: Some(value), signed: Some(value as i64) })
}

fn text(value: &str) -> JsonValue {
    JsonValue::Text(value.to_owned())
}

fn obj(members: Vec<(&str, JsonValue)>) -> JsonValue {
    JsonValue::Object(members.into_iter().map(|(k, v)| (k.to_owned(), v)).collect())
}

fn probe() -> CapabilityProbe {
    CapabilityProbe {
        codex_version: "codex-cli fixture".to_owned(),
        schema_fingerprint: "fingerprint".to_owned(),
        account_read: true,
        rate_limits_read: true,
        token_usage_read: true,
        reset_credits: true,
    }
}

#[test]
fn normalizes_semantic_usage_windows_without_persisting_raw_response() {
    let account = obj(vec![(
        "account",
        obj(vec![
            ("email", text("private@example.test")),
            ("planType", text("plus")),
            ("type", text("chatgpt")),
        ]),
    )]);
    let rates = obj(vec![
        ("rateLimitResetCredits", obj(vec![("availableCount", num(2))])),
        (
            "rateLimits",
            obj(vec![
                ("primary", obj(vec![("resetsAt", num(11)), ("usedPercent", num(12)), ("windowDurationMins", num(300))])),
                ("secondary", obj(vec![("resetsAt", num(42)), ("usedPercent", num(7)), ("windowDurationMins", num(10080))])),
            ]),
        ),
    ]);
    let tokens = obj(vec![("summary", obj(vec![("lifetimeTokens", num(1234))]))]);
    let snapshot = normalize_usage("account_fixture", &probe(), &account, &rates, Some(&tokens)).unwrap();
    assert_eq!(snapshot.windows.len(), 2);
    assert_eq!(snapshot.windows[0].duration_minutes, Some(300));
    assert_eq!(snapshot.windows[1].duration_minutes, Some(10080));
    assert_eq!(snapshot.lifetime_tokens, Some(1234));
    assert_eq!(snapshot.reset_credit_available, Some(2));
    assert!(!format!("{snapshot:?}").contains("private@example.test"));
    assert_eq!(snapshot.plan_type.as_deref(), Some("plus"));
    assert_eq!(snapshot.account_type.as_deref(), Some("chatgpt"));
    assert_eq!(snapshot.login_status, "authenticated");
    assert_eq!(snapshot.expires_at, snapshot.captured_at + 300);
}

#[test]
fn usage_without_an_account_requires_login() {
    let account = obj(vec![("account", JsonValue::Null)]);
    let rates = obj(vec![]);
    let snapshot = normalize_usage("account_fixture", &probe(), &account, &rates, None).unwrap();
    assert_eq!(snapshot.login_status, "login_required");
    assert!(snapshot.windows.is_empty());
    assert_eq!(snapshot.lifetime_tokens, None);
    assert_eq!(snapshot.reset_credit_available, None);
}

#[test]
fn json_lookups_find_members_and_nested_keys() {
    let value = obj(vec![
        ("a", JsonValue::Array(vec![obj(vec![("deep", num(5))])])),
        ("b", obj(vec![("deep", num(6))])),
    ]);
    assert!(get_member(&value, "deep").is_none());
    assert!(matches!(find_key(&value, "deep"), Some(JsonValue::Number(n)) if n.unsigned == Some(5)));
    assert!(find_key(&value, "missing").is_none());
    let reply = obj(vec![("id", num(2)), ("result", obj(vec![("ok", JsonValue::Bool(true))]))]);
    assert!(matches!(app_server_reply(reply, 2), Some(Ok(JsonValue::Object(members))) if members.len() == 1));
    assert!(app_server_reply(obj(vec![("id", num(1))]), 2).is_none());
    let failed = obj(vec![("error", obj(vec![])), ("id", num(2))]);
    assert_eq!(app_server_reply(failed, 2).unwrap().unwrap_err().code, "CODEX_UNAVAILABLE");
    assert!(matches!(app_server_reply(obj(vec![("id", num(3))]), 3), Some(Ok(JsonValue::Null))));
}

#[test]
fn rejects_invalid_targets_dimensions_and_input_bounds() {
    assert_eq!(target_for_ids("project-a;kill-server", "@0").unwrap_err().code, "validation");
    assert_eq!(check_resize(19, 32).unwrap_err().code, "validation");
    assert_eq!(check_input_size(0).unwrap_err().code, "validation");
    assert_eq!(check_input_size(16 * 1024 + 1).unwrap_err().code, "validation");
    assert!(check_resize(20, 5).is_ok() && check_resize(320, 160).is_ok());
    assert!(check_input_size(16 * 1024).is_ok());
}

#[test]
fn tmux_listings_are_read_exactly() {
    let sessions = managed_sessions("mlp3-project-a\t$1\nother\t$2\nmlp3-Bad\t$3\nmlp3-b\t$4\r\n");
    assert_eq!(sessions.len(), 2);
    assert_eq!(sessions[0].project_id, "project-a");
    assert_eq!(sessions[0].session_id, "$1");
    assert_eq!(sessions[1].session_name, "mlp3-b");
    assert_eq!(sessions[1].session_id, "$4");
    let windows = managed_windows("@1\tmain\t1\n@2\tside\t0\n").unwrap();
    assert_eq!(windows.len(), 2);
    assert!(windows[0].active && !windows[1].active);
    assert_eq!(windows[1].name, "side");
    assert_eq!(managed_windows("@1\tmain\n").unwrap_err().message, "tmux window activity missing");
    assert_eq!(managed_windows("@1\n").unwrap_err().message, "tmux window name missing");
    assert_eq!(managed_windows("1\tx\t1\n").unwrap_err().code, "validation");
    assert_eq!(single_pane("%3\n").unwrap(), "%3");
    assert_eq!(single_pane("").unwrap_err().code, "not_found");
    assert_eq!(single_pane("%3\n%4\n").unwrap_err().code, "state");
    assert_eq!(tmux_version_text(true, b"tmux 3.4\n").unwrap(), "tmux 3.4");
    assert_eq!(tmux_version_text(true, b"screen").unwrap_err().code, "unavailable");
    assert_eq!(tmux_version_text(false, b"tmux 3.4").unwrap_err().code, "unavailable");
    let listed = vec![ManagedWindow { id: "@1".to_owned(), name: "main".to_owned(), active: true }];
    assert_eq!(window_target(&listed, "project-a", "@1").unwrap(), "mlp3-project-a:@1");
    assert_eq!(window_target(&listed, "project-a", "@2").unwrap_err().code, "not_found");
}

#[test]
fn gateway_commands_are_built_exactly() {
    assert_eq!(input_commands("mlp3-a:@1", b"A\x03"), "send-keys -t mlp3-a:@1 -H 41\nsend-keys -t mlp3-a:@1 -H 03\n");
    assert_eq!(resize_arguments("t", 80, 24), vec!["resize-window", "-t", "t", "-x", "80", "-y", "24"]);
    assert_eq!(refresh_command("%1", true), "refresh-client -A '%1:on'");
    assert_eq!(refresh_command("%1", false), "refresh-client -A '%1:off'");
}

#[test]
fn attachments_advance_and_guard_their_streams() {
    let (stream, next) = new_attachment("p1-1", 7, "project-a".to_owned(), "@1".to_owned(), "%1".to_owned());
    assert_eq!((stream.attachment_id, stream.bootstrap_id, next), (7, 7, 8));
    assert_eq!(new_attachment("c", u64::MAX, "p".to_owned(), "@1".to_owned(), "%1".to_owned()).1, u64::MAX);
    let stale = AttachedTerminal { attachment_id: 6, ..stream.clone() };
    assert_eq!(check_stream_start(None, &stream, false).unwrap_err().code, "state");
    assert_eq!(check_stream_start(Some(&stream), &stale, false).unwrap_err().code, "stale_stream");
    assert_eq!(check_stream_start(Some(&stream), &stream, true).unwrap_err().code, "state");
    assert!(check_stream_start(Some(&stream), &stream, false).is_ok());
    assert_eq!(check_stream_live(Some(&stream), &stream, false).unwrap_err().code, "state");
    assert!(check_stream_live(Some(&stream), &stream, true).is_ok());
    assert!(closes_attachment(Some(&stream), "project-a", Some("@1")));
    assert!(!closes_attachment(Some(&stream), "project-a", Some("@2")));
    assert!(closes_attachment(Some(&stream), "project-a", None));
    assert!(!closes_attachment(None, "project-a", None));
}

#[test]
fn text_helpers_split_and_count_exactly() {
    assert_eq!(split_text("a\t\tb", '\t'), vec!["a", "", "b"]);
    assert_eq!(lines_of("a\r\nb\n\nc\r"), vec!["a", "b", "", "c\r"]);
    assert!(lines_of("").is_empty());
    assert_eq!(lines_of("x\n"), vec!["x"]);
    assert_eq!(find_char("ab\tc", '\t'), Some(2));
    assert_eq!(find_char("abc", '\t'), None);
    assert_eq!(decimal(0), "0");
    assert_eq!(decimal(10080), "10080");
    assert_eq!(decimal(u64::MAX), u64::MAX.to_string());
}

#[test]
fn sorting_is_stable_and_by_text() {
    assert!(str_le("a", "b") && str_le("a", "ab") && str_le("", "a") && str_le("x", "x"));
    assert!(!str_le("b", "a") && !str_le("ab", "a"));
    let sorted = sort_by_keys(vec![1, 2, 3, 4], vec!["b".to_owned(), "a".to_owned(), "b".to_owned(), "a".to_owned()]);
    assert_eq!(sorted, vec![2, 4, 1, 3]);
    let results = vec![
        refresh_outcome("account_b".to_owned(), Err(CoreError::new("ACCOUNT_IN_USE", "busy"))),
        refresh_outcome("account_a".to_owned(), Err(CoreError::new("NOT_FOUND", "gone"))),
    ];
    let ordered: Vec<UsageRefreshResult> = sort_refresh_results(results);
    assert_eq!(ordered[0].account_id, "account_a");
    assert_eq!(ordered[1].error_code.as_deref(), Some("ACCOUNT_IN_USE"));
    assert!(ordered[1].snapshot.is_none());
}

#[test]
fn workspace_entries_are_matched_and_ordered() {
    assert_eq!(entry_kind(true), "directory");
    assert!(name_matches("ÄBC.txt", "äb"));
    assert!(name_matches("äbc.txt", "ÄB"));
    assert!(name_matches("ReadMe.md", "readme"));
    assert!(!name_matches("notes.txt", "readme"));
    let file = workspace_entry("src/b.rs".to_owned(), "b.rs".to_owned(), false, true, 12, Some(3));
    assert_eq!((file.kind.as_str(), file.size), ("file", 12));
    let dir = workspace_entry("src".to_owned(), "Src".to_owned(), true, false, 4096, None);
    assert_eq!((dir.kind.as_str(), dir.size), ("directory", 0));
    let a = workspace_entry("a.rs".to_owned(), "A.rs".to_owned(), false, true, 1, None);
    let listed: Vec<WorkspaceEntry> = listing_order(vec![file.clone(), a.clone(), dir.clone()]);
    assert_eq!(listed.iter().map(|e| e.name.as_str()).collect::<Vec<_>>(), vec!["Src", "A.rs", "b.rs"]);
    let searched = search_order(vec![file, a, dir]);
    assert_eq!(searched.iter().map(|e| e.relative_path.as_str()).collect::<Vec<_>>(), vec!["a.rs", "src", "src/b.rs"]);
}

#[test]
fn the_client_identifies_its_requests_and_replies() {
    assert_eq!(request_id(7), "req_7");
    let id = new_operation_id();
    assert!(id.starts_with("operation_") && id.len() == 42);
    let ControlRequest::SystemHandshake(handshake) = client_handshake("muxlane_cli", "0.1.0") else {
        panic!("a handshake");
    };
    assert_eq!(handshake.protocol_major, 1);
    assert!(handshake.requested_capabilities.contains(&"terminal.data.v1".to_owned()));
    let ok = RpcResponse {
        jsonrpc: "2.0".to_owned(),
        id: "req_1".to_owned(),
        body: RpcResponseBody::Result { result: ControlResponse::Acknowledged },
    };
    assert_eq!(reply_result("req_1", ok.clone()).unwrap(), ControlResponse::Acknowledged);
    assert_eq!(reply_result("req_2", ok).unwrap_err(), "PROTOCOL_INCOMPATIBLE");
    let refused = RpcResponse {
        jsonrpc: "2.0".to_owned(),
        id: "req_3".to_owned(),
        body: RpcResponseBody::Error {
            error: RpcError {
                code: -32041,
                message: "The requested operation cannot proceed safely.".to_owned(),
                data: RpcErrorData {
                    error_code: "LOCKED".to_owned(),
                    retryable: true,
                    user_action_required: false,
                    correlation_id: "corr_1".to_owned(),
                },
            },
        },
    };
    assert_eq!(reply_result("req_3", refused).unwrap_err(), "LOCKED");
}

#[test]
fn resolved_paths_stay_under_the_project_root() {
    assert!(check_confined("/home/u/p", "/home/u/p").is_ok());
    assert!(check_confined("/home/u/p", "/home/u/p/src/main.rs").is_ok());
    assert_eq!(check_confined("/home/u/p", "/home/u/project/x").unwrap_err().code, "PATH_REJECTED");
    assert_eq!(check_confined("/home/u/p", "/home/u").unwrap_err().code, "PATH_REJECTED");
    assert!(check_confined("/", "/etc").is_ok());
}

#[test]
fn app_server_lines_are_parsed_before_they_are_read() {
    assert_eq!(app_server_line("not json", 2).unwrap().unwrap_err().code, "CODEX_UNAVAILABLE");
    assert!(app_server_line(r#"{"id":1,"result":{}}"#, 2).is_none());
    assert_eq!(app_server_line(r#"{"id":2,"error":{"code":1}}"#, 2).unwrap().unwrap_err().code, "CODEX_UNAVAILABLE");
    assert!(matches!(
        app_server_line(r#"{"id":2,"result":{"rateLimits":1}}"#, 2),
        Some(Ok(JsonValue::Object(members))) if members.len() == 1 && members[0].0 == "rateLimits"
    ));
    assert!(matches!(app_server_line(r#"{"id":2}"#, 2), Some(Ok(JsonValue::Null))));
}
