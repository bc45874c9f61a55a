use muxlane_core::layout::Layout;
use muxlane_core::model::{Account, LaunchTransaction, Project, TransactionState};
use muxlane_core::rows::{decode_account, decode_transaction, Cell};
use muxlane_core::storage::{
    check_schema_version, clamp_count, existing_claim, find_project, fresh_id, OperationClaim,
    Storage, SCHEMA_VERSION,
};

fn fresh_layout() -> Layout {
    let root = format!("/tmp/muxlane-store-{}", uuid::Uuid::new_v4().simple());
    nix::unistd::mkdir(root.as_str(), nix::sys::stat::Mode::S_IRWXU).unwrap();
    Layout::initialize(&root).unwrap()
}

#[test]
fn migrations_are_transactional_and_idempotent() {
    let layout = fresh_layout();
    let mut storage = Storage::open(layout.clone()).unwrap();
    assert_eq!(storage.schema_version().unwrap(), SCHEMA_VERSION);
    assert_eq!(storage.integrity().unwrap(), "ok");
    assert_eq!(Storage::open(layout).unwrap().schema_version().unwrap(), SCHEMA_VERSION);
}

#[test]
fn newer_schema_is_rejected_without_rewrite() {
    let layout = fresh_layout();
    let mut storage = Storage::open(layout.clone()).unwrap();
    storage.connect().unwrap().pragma_update(None, "user_version", 999).unwrap();
    assert_eq!(Storage::open(layout).err().unwrap().code, "MIGRATION_REQUIRED");
    assert_eq!(storage.schema_version().unwrap(), 999);
}

#[test]
fn operation_ids_are_idempotent_and_semantically_bound() {
    let mut storage = Storage::open(fresh_layout()).unwrap();
    assert_eq!(
        storage.claim_operation("operation_fixture", "test.write", "hash-a").unwrap(),
        OperationClaim::New
    );
    assert_eq!(
        storage.claim_operation("operation_fixture", "test.write", "hash-a").unwrap(),
        OperationClaim::InProgress
    );
    storage.complete_operation("operation_fixture", "{\"ok\":true}").unwrap();
    assert_eq!(
        storage.claim_operation("operation_fixture", "test.write", "hash-a").unwrap(),
        OperationClaim::Completed("{\"ok\":true}".to_owned())
    );
    assert_eq!(
        storage.claim_operation("operation_fixture", "test.write", "hash-b").unwrap_err().code,
        "CONFLICT"
    );
    assert_eq!(storage.complete_operation("operation_fixture", "{}").unwrap_err().code, "CONFLICT");
}

fn account(id: &str) -> Account {
    Account {
        account_id: id.to_owned(),
        display_name: "Fixture".to_owned(),
        masked_email: None,
        plan_type: None,
        login_status: "unknown".to_owned(),
        credential_hash: "hash".to_owned(),
        occupied: false,
        created_at: 10,
        updated_at: 10,
    }
}

fn project(id: &str) -> Project {
    Project {
        project_id: id.to_owned(),
        name: "demo".to_owned(),
        canonical_windows_path: None,
        canonical_wsl_path: format!("/home/u/{id}"),
        runtime_relative_path: format!("projects/{id}"),
        tmux_session_name: format!("muxlane-{id}"),
        active: false,
        archived_at: None,
        created_at: 20,
        updated_at: 20,
    }
}

fn launch(transaction_id: &str) -> LaunchTransaction {
    LaunchTransaction {
        transaction_id: transaction_id.to_owned(),
        launch_id: format!("launch_{transaction_id}"),
        project_id: "project_1".to_owned(),
        account_id: "account_1".to_owned(),
        state: TransactionState::Preparing,
        runner_pid: None,
        codex_pid: None,
        boot_id: None,
        runner_start_ticks: None,
        codex_start_ticks: None,
        runner_identity: None,
        codex_identity: None,
        vault_hash_before_checkout: None,
        runtime_hash_at_checkout: None,
        runtime_hash_at_recovery: None,
        vault_hash_at_recovery: None,
        credential_backup_reference: None,
        last_error_code: None,
        last_error_message_redacted: None,
        recovery_attempts: 0,
        created_at: 30,
        updated_at: 30,
    }
}

#[test]
fn launches_move_only_along_permitted_transitions() {
    let mut storage = Storage::open(fresh_layout()).unwrap();
    storage.insert_account(&account("account_1"), "accounts/account_1/auth.json").unwrap();
    storage.insert_project(&project("project_1")).unwrap();
    storage.create_launch(&launch("transaction_1")).unwrap();
    assert!(storage.account("account_1").unwrap().occupied);
    assert!(storage.project("project_1").unwrap().active);
    assert_eq!(
        storage.transition("transaction_1", TransactionState::Finished).unwrap_err().code,
        "INVALID_STATE"
    );
    storage.record_checkout("transaction_1", "vault-hash", "vault-hash").unwrap();
    let record = storage.transaction("transaction_1").unwrap();
    assert_eq!(record.state, TransactionState::CheckedOut);
    assert_eq!(record.vault_hash_before_checkout.as_deref(), Some("vault-hash"));
    assert_eq!(storage.transaction_for_launch("launch_transaction_1").unwrap().transaction_id, "transaction_1");
    assert_eq!(storage.list_nonterminal_transactions().unwrap().len(), 1);
    storage.fail("transaction_1", "FIXTURE_FAILURE", "fixture").unwrap();
    assert_eq!(storage.transaction("transaction_1").unwrap().state, TransactionState::Failed);
    assert!(storage.has_open_incident("project_1").unwrap());
    storage.fail("transaction_1", "OTHER", "again").unwrap();
    assert_eq!(storage.list_incidents(false).unwrap().len(), 1);
    assert_eq!(storage.launch_view("launch_transaction_1").unwrap().outcome.as_deref(), Some("failed"));
    assert_eq!(storage.counts().unwrap(), (1, 1, 1, 1));
    assert_eq!(storage.transaction("transaction_9").unwrap_err().code, "NOT_FOUND");
}

#[test]
fn incidents_resolve_once_and_keep_their_attempts() {
    let mut storage = Storage::open(fresh_layout()).unwrap();
    storage.insert_account(&account("account_1"), "accounts/account_1/auth.json").unwrap();
    storage.insert_project(&project("project_1")).unwrap();
    storage.create_launch(&launch("transaction_1")).unwrap();
    let incident = storage.create_incident("transaction_1", "credential_conflict", Some("recovery/x.json")).unwrap();
    assert!(incident.starts_with("incident_"));
    assert_eq!(storage.create_incident("transaction_1", "other", None).unwrap(), incident);
    let attempt = storage.begin_resolution_attempt(&incident, "keep_vault").unwrap();
    let resolved = storage.resolve_incident(&incident, "keep_vault", "kept").unwrap();
    assert_eq!(resolved.status, "resolved");
    assert_eq!(resolved.resolution_action.as_deref(), Some("keep_vault"));
    storage.complete_resolution_attempt(&attempt, "resolved", None).unwrap();
    assert_eq!(storage.resolve_incident(&incident, "keep_vault", "kept").unwrap().status, "resolved");
    let attempts = storage.list_recovery_attempts(&incident).unwrap();
    assert_eq!(attempts.len(), 1);
    assert_eq!(attempts[0].result_state, "resolved");
    assert!(storage.list_incidents(false).unwrap().is_empty());
    assert_eq!(storage.list_incidents(true).unwrap().len(), 1);
}

#[test]
fn archived_projects_leave_the_default_listing() {
    let mut storage = Storage::open(fresh_layout()).unwrap();
    storage.insert_project(&project("project_1")).unwrap();
    let archived = storage.archive_project("project_1").unwrap();
    assert!(archived.archived_at.is_some());
    assert!(storage.list_projects().unwrap().is_empty());
    assert_eq!(storage.project("project_1").unwrap_err().code, "NOT_FOUND");
    assert_eq!(storage.project_including_archived("project_1").unwrap().project_id, "project_1");
    assert_eq!(storage.archive_project("project_9").unwrap_err().code, "NOT_FOUND");
}

#[test]
fn row_decoding_refuses_the_wrong_storage_class() {
    let row = vec![
        Cell::Text("account_1".to_owned()),
        Cell::Text("Fixture".to_owned()),
        Cell::Null,
        Cell::Text("plus".to_owned()),
        Cell::Text("unknown".to_owned()),
        Cell::Text("hash".to_owned()),
        Cell::Integer(1),
        Cell::Integer(2),
        Cell::Integer(1),
    ];
    let decoded = decode_account(&row).unwrap();
    assert_eq!(decoded.plan_type.as_deref(), Some("plus"));
    assert!(decoded.occupied);
    let mut wrong = row.clone();
    wrong[6] = Cell::Text("1".to_owned());
    assert_eq!(decode_account(&wrong).unwrap_err().code, "STORAGE_FAILURE");
    assert_eq!(decode_account(&row[..8].to_vec()).unwrap_err().code, "STORAGE_FAILURE");
    let mut transaction: Vec<Cell> = (0..22).map(|_| Cell::Null).collect();
    for index in [0, 1, 2, 3] {
        transaction[index] = Cell::Text(format!("id{index}"));
    }
    transaction[4] = Cell::Text("mystery".to_owned());
    transaction[8] = Cell::Integer(-5);
    transaction[19] = Cell::Integer(2);
    transaction[20] = Cell::Integer(3);
    transaction[21] = Cell::Integer(4);
    let decoded = decode_transaction(&transaction).unwrap();
    assert_eq!(decoded.state, TransactionState::Failed);
    assert_eq!(decoded.runner_start_ticks, None);
    assert_eq!(decoded.recovery_attempts, 2);
    transaction[19] = Cell::Integer(-1);
    assert_eq!(decode_transaction(&transaction).unwrap_err().code, "STORAGE_FAILURE");
}

#[test]
fn stored_answers_are_decided_exactly() {
    assert_eq!(clamp_count(-3), 0);
    assert_eq!(clamp_count(7), 7);
    assert!(check_schema_version(SCHEMA_VERSION).is_ok());
    assert_eq!(check_schema_version(SCHEMA_VERSION + 1).unwrap_err().code, "MIGRATION_REQUIRED");
    let row = vec![Cell::Text("m".to_owned()), Cell::Text("h".to_owned()), Cell::Null];
    assert_eq!(existing_claim(&row, "m", "h").unwrap(), OperationClaim::InProgress);
    assert_eq!(existing_claim(&row, "m", "other").unwrap_err().code, "CONFLICT");
    let id = fresh_id("incident");
    assert_eq!(id.len(), "incident_".len() + 32);
    assert!(id["incident_".len()..].bytes().all(|b| b.is_ascii_digit() || (b'a'..=b'f').contains(&b)));
    assert_eq!(find_project(vec![project("a"), project("b")], "b").unwrap().project_id, "b");
    assert_eq!(find_project(vec![project("a")], "c").unwrap_err().code, "NOT_FOUND");
}

#[test]
fn lists_come_in_their_stated_order() {
    let mut storage = Storage::open(fresh_layout()).unwrap();
    storage.insert_account(&account("account_b"), "accounts/account_b/auth.json").unwrap();
    storage.insert_account(&account("account_a"), "accounts/account_a/auth.json").unwrap();
    let mut later = account("account_0");
    later.created_at = 20;
    later.updated_at = 20;
    storage.insert_account(&later, "accounts/account_0/auth.json").unwrap();
    let ids: Vec<String> = storage.list_accounts().unwrap().into_iter().map(|a| a.account_id).collect();
    assert_eq!(ids, vec!["account_a", "account_b", "account_0"]);
    assert_eq!(storage.account("account_b").unwrap().account_id, "account_b");
    assert_eq!(storage.account("account_z").unwrap_err().code, "NOT_FOUND");
    assert_eq!(storage.counts().unwrap().0, 3);
}
