use muxlane_core::credential::{
    begin_checkout, begin_commit, begin_preparing_recovery, finish_preparing, imported_account,
    isolate_invalid_credential, plan_commit, record_conflict, validate_display_name,
    vault_relative_path, CommitPlan, CredentialDisposition, CredentialSide, PreparingPlan,
};
use muxlane_core::daemon::{answer_query, begin_operation, IdempotentStep};
use muxlane_core::incident::{begin_resolution, finish_resolution, Resolution, KEEP_VAULT};
use muxlane_core::error::CoreError;
use muxlane_core::layout::Layout;
use muxlane_core::model::{Account, LaunchTransaction, Project, TransactionState};
use muxlane_core::protocol::{ControlRequest, ControlResponse, HandshakeRequest};
use muxlane_core::recovery::{
    check_post_commit, conclude_recovery, finish_after_vault_commit, finish_cleaned,
    finish_commit_recovery, record_checkout_ambiguous, record_process_without_lock,
};
use muxlane_core::json::{JsonNumber, JsonValue};
use muxlane_core::session::{
    refresh_threads, session_head, session_heads, session_metadata, thread_indexes, SessionFile,
};

fn json_model(value: &serde_json::Value) -> JsonValue {
    match value {
        serde_json::Value::Null => JsonValue::Null,
        serde_json::Value::Bool(flag) => JsonValue::Bool(*flag),
        serde_json::Value::Number(n) => JsonValue::Number(JsonNumber { unsigned: n.as_u64(), signed: n.as_i64() }),
        serde_json::Value::String(text) => JsonValue::Text(text.clone()),
        serde_json::Value::Array(items) => JsonValue::Array(items.iter().map(json_model).collect()),
        serde_json::Value::Object(map) => {
            JsonValue::Object(map.iter().map(|(k, v)| (k.clone(), json_model(v))).collect())
        }
    }
}

fn parsed_head(bytes: &[u8]) -> Vec<Option<JsonValue>> {
    session_head(bytes)
        .iter()
        .map(|line| serde_json::from_slice::<serde_json::Value>(line).ok().map(|v| json_model(&v)))
        .collect()
}
use muxlane_core::storage::Storage;
use muxlane_core::terminal::{auxiliary_project, locate_terminal, record_terminal, runner_project};
use muxlane_core::usage::{record_usage, usage_account};
use muxlane_core::model::{CommandPresetTemplate, TerminalPresetTemplate};
use muxlane_core::workbench::{
    append_history, apply_template, clear_project_history, copy_template, delete_command_preset,
    delete_history, delete_template, list_command_presets, list_templates, save_command_preset,
    save_template, search_history,
};

fn fresh_storage() -> Storage {
    let root = format!("/tmp/muxlane-flow-{}", uuid::Uuid::new_v4().simple());
    nix::unistd::mkdir(root.as_str(), nix::sys::stat::Mode::S_IRWXU).unwrap();
    Storage::open(Layout::initialize(&root).unwrap()).unwrap()
}

fn account(id: &str) -> Account {
    imported_account(id, "  Fixture  ", "hash", 10)
}

fn project(id: &str) -> Project {
    Project {
        project_id: id.to_owned(),
        name: "demo".to_owned(),
        canonical_windows_path: None,
        canonical_wsl_path: format!("/home/u/{id}"),
        runtime_relative_path: format!("projects/{id}"),
        tmux_session_name: format!("muxlane-{id}"),
        active: false,
        archived_at: None,
        created_at: 20,
        updated_at: 20,
    }
}

fn launch(transaction_id: &str) -> LaunchTransaction {
    LaunchTransaction {
        transaction_id: transaction_id.to_owned(),
        launch_id: format!("launch_{transaction_id}"),
        project_id: "project_1".to_owned(),
        account_id: "account_1".to_owned(),
        state: TransactionState::Preparing,
        runner_pid: None,
        codex_pid: None,
        boot_id: None,
        runner_start_ticks: None,
        codex_start_ticks: None,
        runner_identity: None,
        codex_identity: None,
        vault_hash_before_checkout: None,
        runtime_hash_at_checkout: None,
        runtime_hash_at_recovery: None,
        vault_hash_at_recovery: None,
        credential_backup_reference: None,
        last_error_code: None,
        last_error_message_redacted: None,
        recovery_attempts: 0,
        created_at: 30,
        updated_at: 30,
    }
}

fn seeded() -> Storage {
    let mut storage = fresh_storage();
    storage.insert_account(&account("account_1"), &vault_relative_path("account_1")).unwrap();
    storage.insert_project(&project("project_1")).unwrap();
    storage.create_launch(&launch("transaction_1")).unwrap();
    storage
}

#[test]
fn imported_accounts_are_trimmed_and_named_safely() {
    let imported = account("account_1");
    assert_eq!(imported.display_name, "Fixture");
    assert_eq!(imported.login_status, "unknown");
    assert!(!imported.occupied);
    assert_eq!(vault_relative_path("account_1"), "accounts/account_1/auth.json");
    assert!(validate_display_name("Work").is_ok());
    assert_eq!(validate_display_name("   ").unwrap_err().code, "INVALID_REQUEST");
    assert_eq!(validate_display_name("bad\u{7}").unwrap_err().code, "INVALID_REQUEST");
    assert_eq!(validate_display_name(&"x".repeat(121)).unwrap_err().code, "INVALID_REQUEST");
}

#[test]
fn a_clean_commit_recovers_the_launch() {
    let mut storage = seeded();
    assert_eq!(begin_checkout(&mut storage, "transaction_1").unwrap().state, TransactionState::Preparing);
    storage.record_checkout("transaction_1", "base", "base").unwrap();
    assert_eq!(begin_checkout(&mut storage, "transaction_1").unwrap_err().code, "INVALID_STATE");
    let committing = begin_commit(&mut storage, "transaction_1").unwrap();
    assert_eq!(committing.state, TransactionState::CommittingAuth);
    assert_eq!(plan_commit(&mut storage, "transaction_1", "base", "base", "new").unwrap(), CommitPlan::CommitRuntime);
    let recorded = storage.transaction("transaction_1").unwrap();
    assert_eq!(recorded.vault_hash_at_recovery.as_deref(), Some("base"));
    assert_eq!(recorded.runtime_hash_at_recovery.as_deref(), Some("new"));
    storage.transition("transaction_1", TransactionState::AuthCommitted).unwrap();
    storage.transition("transaction_1", TransactionState::Cleaned).unwrap();
    assert_eq!(
        finish_commit_recovery(&mut storage, "transaction_1", CredentialDisposition::RuntimeCommitted).unwrap(),
        "runtime_credential_committed"
    );
    let concluded = conclude_recovery(&mut storage, &committing, "runtime_credential_committed").unwrap();
    assert_eq!(concluded.state, TransactionState::Recovered);
    assert_eq!(concluded.previous_state, TransactionState::CommittingAuth);
    assert!(concluded.changed);
    assert!(concluded.incident_id.is_none());
    assert_eq!(storage.launch_view("launch_transaction_1").unwrap().outcome.as_deref(), Some("recovered"));
}

#[test]
fn a_conflict_preserves_both_credentials_and_opens_an_incident() {
    let mut storage = seeded();
    storage.record_checkout("transaction_1", "base", "base").unwrap();
    let committing = begin_commit(&mut storage, "transaction_1").unwrap();
    assert_eq!(plan_commit(&mut storage, "transaction_1", "base", "vault", "runtime").unwrap(), CommitPlan::Conflict);
    assert_eq!(
        record_conflict(&mut storage, "transaction_1", "recovery/transaction_1/conflict.json").unwrap(),
        CredentialDisposition::Conflict
    );
    assert_eq!(
        finish_commit_recovery(&mut storage, "transaction_1", CredentialDisposition::Conflict).unwrap(),
        "credential_conflict"
    );
    let concluded = conclude_recovery(&mut storage, &committing, "credential_conflict").unwrap();
    assert_eq!(concluded.state, TransactionState::CredentialConflict);
    assert!(concluded.incident_id.is_some());
    let incidents = storage.list_incidents(false).unwrap();
    assert_eq!(incidents.len(), 1);
    assert_eq!(incidents[0].evidence_relative_path.as_deref(), Some("recovery/transaction_1/conflict.json"));
    assert_eq!(storage.launch_view("launch_transaction_1").unwrap().outcome.as_deref(), Some("credential_conflict"));
}

#[test]
fn invalid_credentials_fail_the_launch_with_their_side_named() {
    let mut storage = seeded();
    storage.record_checkout("transaction_1", "base", "base").unwrap();
    let error = isolate_invalid_credential(&mut storage, "transaction_1", CredentialSide::Runtime, "recovery/x.json");
    assert_eq!(error.code, "INVALID_CREDENTIAL");
    assert_eq!(error.message, "Runtime credential is invalid");
    let failed = storage.transaction("transaction_1").unwrap();
    assert_eq!(failed.state, TransactionState::Failed);
    assert_eq!(failed.credential_backup_reference.as_deref(), Some("recovery/x.json"));
    assert_eq!(begin_commit(&mut storage, "transaction_1").unwrap_err().code, "INVALID_STATE");
}

#[test]
fn preparing_recovery_follows_its_plan() {
    let mut storage = seeded();
    assert_eq!(begin_preparing_recovery(&mut storage, "transaction_1").unwrap().state, TransactionState::Preparing);
    assert_eq!(
        finish_preparing(&mut storage, "transaction_1", PreparingPlan::NothingCheckedOut, "").unwrap(),
        CredentialDisposition::Unchanged
    );
    assert_eq!(storage.transaction("transaction_1").unwrap().state, TransactionState::Recovered);
    assert_eq!(
        storage.launch_view("launch_transaction_1").unwrap().outcome.as_deref(),
        Some("recovered_before_checkout")
    );
    assert_eq!(begin_preparing_recovery(&mut storage, "transaction_1").unwrap_err().code, "INVALID_STATE");

    let mut other = seeded();
    let error = finish_preparing(&mut other, "transaction_1", PreparingPlan::Ambiguous, "recovery/p.json").unwrap_err();
    assert_eq!(error.code, "RECOVERY_REQUIRED");
    let transaction = other.transaction("transaction_1").unwrap();
    assert_eq!(transaction.state, TransactionState::Failed);
    let result = record_checkout_ambiguous(&mut other, &launch("transaction_1"), error.code).unwrap();
    assert_eq!(result.classification, "checkout_ambiguous");
    assert_eq!(result.state, TransactionState::Failed);
    assert!(result.changed && result.incident_id.is_some());
}

#[test]
fn a_live_process_without_its_lock_fails_the_launch() {
    let mut storage = seeded();
    storage.record_checkout("transaction_1", "base", "base").unwrap();
    let running = storage.transaction("transaction_1").unwrap();
    let result = record_process_without_lock(&mut storage, &running).unwrap();
    assert_eq!(result.classification, "process_without_lock");
    assert_eq!(result.previous_state, TransactionState::CheckedOut);
    assert_eq!(result.state, TransactionState::Failed);
    let incident = result.incident_id.unwrap();
    let attempts = storage.list_recovery_attempts(&incident).unwrap();
    assert_eq!(attempts.len(), 1);
    assert_eq!(attempts[0].error_code.as_deref(), Some("PROCESS_IDENTITY_UNCONFIRMED"));
}

#[test]
fn late_recovery_routes_finish_the_launch() {
    assert!(check_post_commit(true, "h", "h").is_ok());
    assert_eq!(check_post_commit(false, "", "h").unwrap_err().code, "RECOVERY_REQUIRED");
    assert_eq!(check_post_commit(true, "a", "b").unwrap_err().code, "CREDENTIAL_CONFLICT");

    let mut storage = seeded();
    storage.record_checkout("transaction_1", "base", "base").unwrap();
    begin_commit(&mut storage, "transaction_1").unwrap();
    storage.transition("transaction_1", TransactionState::AuthCommitted).unwrap();
    finish_after_vault_commit(&mut storage, "transaction_1").unwrap();
    assert_eq!(storage.transaction("transaction_1").unwrap().state, TransactionState::Recovered);
    assert!(finish_cleaned(&mut storage, "transaction_1").is_ok());
    let mut other = seeded();
    other.record_checkout("transaction_1", "base", "base").unwrap();
    assert_eq!(finish_cleaned(&mut other, "transaction_1").unwrap_err().code, "INVALID_STATE");
}

#[test]
fn resolutions_are_recorded_with_their_outcome() {
    let mut storage = seeded();
    let incident = storage.create_incident("transaction_1", "credential_conflict", None).unwrap();
    let Resolution::Apply(open) = begin_resolution(&mut storage, &incident, KEEP_VAULT).unwrap() else {
        panic!("an open incident is applied");
    };
    assert_eq!(open.status, "open");
    assert_eq!(begin_resolution(&mut storage, &incident, "burn").unwrap_err().code, "INVALID_REQUEST");
    let attempt = storage.begin_resolution_attempt(&incident, KEEP_VAULT).unwrap();
    let failed = finish_resolution(
        &mut storage,
        &incident,
        &attempt,
        KEEP_VAULT,
        Err(CoreError::new("INVALID_CREDENTIAL", "Vault credential is invalid")),
    )
    .unwrap_err();
    assert_eq!(failed.code, "INVALID_CREDENTIAL");
    let attempt = storage.begin_resolution_attempt(&incident, KEEP_VAULT).unwrap();
    let resolved = finish_resolution(&mut storage, &incident, &attempt, KEEP_VAULT, Ok(())).unwrap();
    assert_eq!(resolved.status, "resolved");
    assert_eq!(
        resolved.resolution_summary.as_deref(),
        Some("validated Vault retained; Runtime credential cleared")
    );
    assert!(matches!(begin_resolution(&mut storage, &incident, KEEP_VAULT).unwrap(), Resolution::Resolved(_)));
    assert_eq!(begin_resolution(&mut storage, &incident, "use_evidence").unwrap_err().code, "CONFLICT");
    let attempts = storage.list_recovery_attempts(&incident).unwrap();
    assert_eq!(attempts.len(), 2);
    assert!(attempts.iter().any(|attempt| attempt.result_state == "failed"));
    assert!(attempts.iter().any(|attempt| attempt.result_state == "resolved"));
}

#[test]
fn queries_are_answered_from_storage() {
    let mut storage = seeded();
    let handshake = ControlRequest::SystemHandshake(HandshakeRequest {
        protocol_major: 1,
        protocol_minor: 0,
        client_name: "fixture".to_owned(),
        client_version: "1".to_owned(),
        requested_capabilities: vec!["core.read.v1".to_owned(), "unknown.v9".to_owned()],
    });
    let Some(Ok(ControlResponse::Handshake(answer))) = answer_query(&mut storage, "0.1.0", "daemon_x", &handshake)
    else {
        panic!("handshake is answered");
    };
    assert_eq!(answer.granted_capabilities, vec!["core.read.v1".to_owned()]);
    assert_eq!(answer.daemon_instance_id, "daemon_x");
    let Some(Ok(ControlResponse::Status(status))) =
        answer_query(&mut storage, "0.1.0", "daemon_x", &ControlRequest::SystemStatus)
    else {
        panic!("status is answered");
    };
    assert_eq!((status.accounts, status.projects, status.launches, status.active_launches), (1, 1, 1, 1));
    let Some(Ok(ControlResponse::Health(health))) =
        answer_query(&mut storage, "0.1.0", "daemon_x", &ControlRequest::SystemHealth)
    else {
        panic!("health is answered");
    };
    assert!(health.healthy);
    assert_eq!(health.database_integrity, "ok");
    let listed = answer_query(
        &mut storage,
        "0.1.0",
        "daemon_x",
        &ControlRequest::TerminalList { project_id: "bad id".to_owned() },
    );
    assert_eq!(listed.unwrap().unwrap_err().code, "INVALID_REQUEST");
    assert!(answer_query(&mut storage, "0.1.0", "daemon_x", &ControlRequest::RecoveryScan {
        operation_id: "operation_x".to_owned()
    })
    .is_none());
    assert!(matches!(
        answer_query(&mut storage, "0.1.0", "daemon_x", &ControlRequest::AccountList),
        Some(Ok(ControlResponse::Accounts(accounts))) if accounts.len() == 1
    ));
}

#[test]
fn operations_are_claimed_once_per_request() {
    let mut storage = seeded();
    assert_eq!(
        begin_operation(&mut storage, "operation_1", "recovery.scan", b"{}").unwrap(),
        IdempotentStep::Execute
    );
    assert_eq!(
        begin_operation(&mut storage, "operation_1", "recovery.scan", b"{}").unwrap_err().code,
        "RECOVERY_REQUIRED"
    );
    storage.complete_operation("operation_1", "{\"done\":true}").unwrap();
    assert_eq!(
        begin_operation(&mut storage, "operation_1", "recovery.scan", b"{}").unwrap(),
        IdempotentStep::Replay("{\"done\":true}".to_owned())
    );
    assert_eq!(
        begin_operation(&mut storage, "operation_1", "recovery.scan", b"{\"x\":1}").unwrap_err().code,
        "CONFLICT"
    );
    assert_eq!(begin_operation(&mut storage, "op_1", "recovery.scan", b"{}").unwrap_err().code, "INVALID_REQUEST");
}

#[test]
fn terminals_are_recorded_in_order_and_found_again() {
    let mut storage = seeded();
    assert_eq!(auxiliary_project(&mut storage, "project_1", "shell").unwrap().project_id, "project_1");
    assert_eq!(auxiliary_project(&mut storage, "project_1", "bad;name").unwrap_err().code, "INVALID_REQUEST");
    assert_eq!(runner_project(&mut storage, "transaction_1").unwrap().project_id, "project_1");
    let first = record_terminal(&mut storage, "project_1", "codex", "Codex", "@1".to_owned()).unwrap();
    let second = record_terminal(&mut storage, "project_1", "auxiliary", "shell", "@2".to_owned()).unwrap();
    assert!(first.terminal_id.starts_with("terminal_"));
    assert_eq!(first.lifecycle_status, "running");
    let listed = storage.list_terminals("project_1").unwrap();
    assert_eq!(listed.iter().map(|t| t.terminal_id.clone()).collect::<Vec<_>>(), vec![
        first.terminal_id.clone(),
        second.terminal_id.clone()
    ]);
    let (found, owner) = locate_terminal(&mut storage, &second.terminal_id).unwrap();
    assert_eq!(found.display_name, "shell");
    assert_eq!(owner.project_id, "project_1");
    assert_eq!(locate_terminal(&mut storage, "terminal_missing").unwrap_err().code, "NOT_FOUND");
}

#[test]
fn sessions_index_only_the_projects_threads() {
    let owned = b"{\"type\":\"session_meta\",\"payload\":{\"id\":\"thread_1\",\"cwd\":\"/home/u/project_1\"}}\n".to_vec();
    let foreign = b"{\"type\":\"session_meta\",\"payload\":{\"id\":\"thread_2\",\"cwd\":\"/elsewhere\"}}\n".to_vec();
    let unnamed = b"{\"type\":\"message\"}\n".to_vec();
    let files = vec![
        SessionFile { relative_path: "sessions/a.jsonl".to_owned(), modified_at: 5, head: parsed_head(&owned) },
        SessionFile { relative_path: "sessions/b.jsonl".to_owned(), modified_at: 6, head: parsed_head(&foreign) },
        SessionFile { relative_path: "sessions/c.jsonl".to_owned(), modified_at: 7, head: parsed_head(&unnamed) },
    ];
    let version = Some("codex 1.0".to_owned());
    let indexes = thread_indexes("project_1", "/home/u/project_1", &version, &files, 99).unwrap();
    assert_eq!(indexes.len(), 1);
    assert_eq!(indexes[0].thread_id, "thread_1");
    assert_eq!(indexes[0].source_relative_path, "sessions/a.jsonl");
    assert_eq!(indexes[0].status, "discovered");
    assert_eq!(indexes[0].codex_version.as_deref(), Some("codex 1.0"));
    let mut storage = seeded();
    let stored = refresh_threads(&mut storage, &project("project_1"), &version, &files).unwrap();
    assert_eq!(stored.len(), 1);
    let bad = vec![SessionFile {
        relative_path: "sessions/d.jsonl".to_owned(),
        modified_at: 1,
        head: parsed_head(b"{\"type\":\"session_meta\",\"payload\":{\"id\":\"bad id\"}}\n"),
    }];
    assert_eq!(thread_indexes("project_1", "/p", &None, &bad, 1).unwrap_err().code, "INVALID_REQUEST");
}

#[test]
fn usage_refreshes_update_the_account() {
    let mut storage = seeded();
    assert_eq!(usage_account(&mut storage, "account_1").unwrap().account_id, "account_1");
    assert_eq!(usage_account(&mut storage, "account_9").unwrap_err().code, "NOT_FOUND");
    assert_eq!(usage_account(&mut storage, "bad id").unwrap_err().code, "INVALID_REQUEST");
    let snapshot = muxlane_core::model::UsageSnapshot {
        usage_snapshot_id: "usage_1".to_owned(),
        account_id: "account_1".to_owned(),
        codex_version: "codex 1".to_owned(),
        capability_fingerprint: "f".to_owned(),
        account_type: None,
        plan_type: Some("plus".to_owned()),
        login_status: "authenticated".to_owned(),
        windows: vec![],
        lifetime_tokens: None,
        reset_credit_available: None,
        captured_at: 100,
        expires_at: 400,
        error_code: None,
    };
    record_usage(&mut storage, &snapshot, "{\"usage_snapshot_id\":\"usage_1\"}").unwrap();
    let account = storage.account("account_1").unwrap();
    assert_eq!(account.plan_type.as_deref(), Some("plus"));
    assert_eq!(account.login_status, "authenticated");
    assert_eq!(
        storage.latest_usage("account_1").unwrap().as_deref(),
        Some("{\"usage_snapshot_id\":\"usage_1\"}")
    );
}

#[test]
fn persists_templates_presets_and_history_without_terminal_output() {
    let mut storage = fresh_storage();
    storage.insert_project(&project("project_1")).unwrap();
    let terminal_presets = vec![TerminalPresetTemplate { name: "Shell".into(), kind: "shell".into() }];
    let command_presets = vec![CommandPresetTemplate {
        name: "Test".into(),
        description: "Run tests".into(),
        terminal_kind: "shell".into(),
        working_directory: "".into(),
        command: "cargo test".into(),
    }];
    let template = save_template(
        &mut storage,
        None,
        "Rust",
        "Rust defaults",
        "gpt-5.6-sol",
        "high",
        &terminal_presets,
        &command_presets,
        r#"[{"name":"Shell","kind":"shell"}]"#,
        r#"[{"name":"Test"}]"#,
    )
    .unwrap();
    assert_eq!(template.default_model, "gpt-5.6-sol");
    apply_template(&mut storage, "project_1", &template.template_id, &command_presets).unwrap();
    let settings = apply_template(&mut storage, "project_1", &template.template_id, &command_presets).unwrap();
    assert_eq!((settings.default_model.as_str(), settings.reasoning.as_str()), ("gpt-5.6-sol", "high"));
    assert_eq!(list_command_presets(&mut storage, "project_1").unwrap().len(), 1);
    append_history(&mut storage, "project_1", None, None, "shell", "cargo test").unwrap();
    assert_eq!(search_history(&mut storage, "project_1", None, None, None, "cargo", 10).unwrap().len(), 1);
    assert_eq!(
        append_history(&mut storage, "project_1", None, None, "shell", "Authorization: Bearer secret")
            .unwrap_err()
            .code,
        "SENSITIVE_CONTENT_REJECTED"
    );
}

#[test]
fn templates_are_copied_under_a_new_identity() {
    let mut storage = fresh_storage();
    let first = save_template(
        &mut storage,
        None,
        "Rust",
        "",
        "gpt-5.6-sol",
        "low",
        &Vec::new(),
        &Vec::new(),
        "[]",
        "[]",
    )
    .unwrap();
    let copy = copy_template(&mut storage, &first.template_id, "  Rust copy ").unwrap();
    assert_ne!(copy.template_id, first.template_id);
    assert_eq!((copy.name.as_str(), copy.reasoning.as_str()), ("Rust copy", "low"));
    assert_eq!(copy.command_presets_json, "[]");
    let names: Vec<String> = list_templates(&mut storage).unwrap().into_iter().map(|t| t.name).collect();
    assert_eq!(names, vec!["Rust".to_owned(), "Rust copy".to_owned()]);
    assert_eq!(copy_template(&mut storage, "bad id", "x").unwrap_err().code, "INVALID_REQUEST");
    assert_eq!(copy_template(&mut storage, "template_missing", "x").unwrap_err().code, "NOT_FOUND");
    assert_eq!(copy_template(&mut storage, &first.template_id, " ").unwrap_err().code, "INVALID_REQUEST");
    let bad = vec![CommandPresetTemplate {
        name: "Leak".into(),
        description: "".into(),
        terminal_kind: "shell".into(),
        working_directory: "../up".into(),
        command: "ls".into(),
    }];
    assert_eq!(
        save_template(&mut storage, None, "Bad", "", "gpt-5.6-sol", "low", &Vec::new(), &bad, "[]", "[]")
            .unwrap_err()
            .code,
        "PATH_REJECTED"
    );
}

#[test]
fn workbench_records_are_deleted_by_identifier() {
    let mut storage = fresh_storage();
    storage.insert_project(&project("project_1")).unwrap();
    let preset = save_command_preset(&mut storage, None, "project_1", "Build", "", "shell", "src", "cargo build").unwrap();
    assert_eq!(preset.working_directory, "src");
    delete_command_preset(&mut storage, &preset.preset_id).unwrap();
    assert_eq!(delete_command_preset(&mut storage, &preset.preset_id).unwrap_err().code, "NOT_FOUND");
    assert_eq!(delete_command_preset(&mut storage, "no/slash").unwrap_err().code, "INVALID_REQUEST");
    let first = append_history(&mut storage, "project_1", None, None, "prompt", "explain this").unwrap();
    append_history(&mut storage, "project_1", None, None, "shell", "ls").unwrap();
    delete_history(&mut storage, &first.history_id).unwrap();
    assert_eq!(delete_history(&mut storage, &first.history_id).unwrap_err().code, "NOT_FOUND");
    assert_eq!(clear_project_history(&mut storage, "project_1").unwrap(), 1);
    assert_eq!(clear_project_history(&mut storage, "project_missing").unwrap_err().code, "NOT_FOUND");
    let template = save_template(&mut storage, None, "T", "", "gpt-5.6-sol", "medium", &Vec::new(), &Vec::new(), "[]", "[]").unwrap();
    delete_template(&mut storage, &template.template_id).unwrap();
    assert_eq!(delete_template(&mut storage, &template.template_id).unwrap_err().code, "NOT_FOUND");
    assert!(list_templates(&mut storage).unwrap().is_empty());
}

#[test]
fn invalid_identifiers_are_refused_before_reading() {
    let mut storage = seeded();
    assert_eq!(list_command_presets(&mut storage, "bad id").unwrap_err().code, "INVALID_REQUEST");
    assert_eq!(search_history(&mut storage, "bad id", None, None, None, "x", 5).unwrap_err().code, "INVALID_REQUEST");
    let run = storage.begin_recovery_run("transaction_1").unwrap();
    assert!(run.starts_with("recovery_run_") && run.len() == "recovery_run".len() + 33);
}

#[test]
fn session_metadata_is_read_from_the_first_lines_only() {
    let mut text = String::new();
    for _ in 0..32 {
        text.push_str("{\"type\":\"message\"}\n");
    }
    text.push_str("{\"type\":\"session_meta\",\"payload\":{\"id\":\"thread_late\"}}\n");
    assert_eq!(session_head(text.as_bytes()).len(), 32);
    assert!(session_metadata(&parsed_head(text.as_bytes())).is_none());
    let early = b"not json\n{\"type\":\"session_meta\",\"payload\":{\"id\":\"thread_a\",\"cwd\":7}}\nsecret";
    let (id, cwd) = session_metadata(&parsed_head(early)).unwrap();
    assert_eq!((id.as_str(), cwd), ("thread_a", None));
}

#[test]
fn reads_answer_only_what_they_were_asked() {
    let mut storage = seeded();
    assert_eq!(storage.transaction("transaction_1").unwrap().transaction_id, "transaction_1");
    assert_eq!(storage.transaction("transaction_2").unwrap_err().code, "NOT_FOUND");
    assert_eq!(storage.transaction_for_launch("launch_transaction_1").unwrap().launch_id, "launch_transaction_1");
    assert!(!storage.has_open_incident("project_1").unwrap());
    assert_eq!(storage.incomplete_recovery_runs().unwrap(), 0);
    let run = storage.begin_recovery_run("transaction_1").unwrap();
    assert_eq!(storage.incomplete_recovery_runs().unwrap(), 1);
    storage.complete_recovery_run(&run, "checked", TransactionState::Preparing, None).unwrap();
    assert_eq!(storage.incomplete_recovery_runs().unwrap(), 0);
    let incident = storage.create_incident("transaction_1", "checkout_ambiguous", None).unwrap();
    assert!(storage.has_open_incident("project_1").unwrap());
    assert!(!storage.has_open_incident("project_2").unwrap());
    assert_eq!(storage.incident(&incident).unwrap().incident_id, incident);
    assert!(storage.list_recovery_attempts(&incident).unwrap().is_empty());
    assert!(storage.list_terminals("project_2").unwrap().is_empty());
    assert_eq!(storage.latest_usage("account_1").unwrap(), None);
    let open = storage.list_nonterminal_transactions().unwrap();
    assert!(open.iter().all(|t| !t.state.terminal()));
    storage.fail("transaction_1", "RECOVERY_REQUIRED", "stopped").unwrap();
    assert!(storage.list_nonterminal_transactions().unwrap().is_empty());
    let launches = storage.list_launches().unwrap();
    assert!(launches.windows(2).all(|w| w[0].started_at >= w[1].started_at));
}

#[test]
fn session_heads_parse_each_head_line_as_serde_does() {
    let bytes = b"{\"type\":\"session_meta\",\"payload\":{\"id\":\"thread_a\",\"cwd\":\"/w\"}}\nnot json\n[1,2]\n";
    let heads = session_heads(bytes);
    assert_eq!(heads.len(), 4);
    assert!(heads[0].is_some());
    assert!(heads[1].is_none());
    assert!(heads[2].is_some());
    assert!(heads[3].is_none());
    assert_eq!(format!("{:?}", heads), format!("{:?}", parsed_head(bytes)));
}
