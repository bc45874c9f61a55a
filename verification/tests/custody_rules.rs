use muxlane_core::credential::{
    checkout_allowed, checkout_baseline, commit_allowed, commit_plan, evidence_file_name,
    evidence_relative_path, plan_disposition, preparing_plan, verify_written, CommitPlan,
    CredentialDisposition, PreparingPlan,
};
use muxlane_core::digest::{credential_hash, hex_bytes, hex_sha256};
use muxlane_core::incident::{
    check_evidence_path, evidence_candidate, resolution_start, resolution_summary, vault_backup_name,
    ResolutionStart, KEEP_VAULT, USE_EVIDENCE,
};
use muxlane_core::model::{LaunchTransaction, RecoveryIncident, TransactionState};
use muxlane_core::process::{
    matches_recorded, process_image_identity, recorded_pid, start_ticks_from_stat, validate_boot_id,
};
use muxlane_core::model::ProcessIdentity;
use muxlane_core::recovery::{
    active_lock_result, commit_classification, is_lock_contention, recovery_result, recovery_route,
    route_classification, RecoveryRoute,
};

#[test]
fn commit_plans_follow_the_hash_matrix() {
    assert_eq!(commit_plan("a", "a", "a"), CommitPlan::KeepUnchanged);
    assert_eq!(commit_plan("a", "b", "a"), CommitPlan::KeepNewerVault);
    assert_eq!(commit_plan("a", "b", "b"), CommitPlan::AlreadyCommitted);
    assert_eq!(commit_plan("a", "a", "b"), CommitPlan::CommitRuntime);
    assert_eq!(commit_plan("a", "b", "c"), CommitPlan::Conflict);
    assert_eq!(plan_disposition(CommitPlan::KeepUnchanged), CredentialDisposition::Unchanged);
    assert_eq!(plan_disposition(CommitPlan::KeepNewerVault), CredentialDisposition::NewerVaultPreserved);
    assert_eq!(plan_disposition(CommitPlan::AlreadyCommitted), CredentialDisposition::RuntimeCommitted);
    assert_eq!(plan_disposition(CommitPlan::CommitRuntime), CredentialDisposition::RuntimeCommitted);
    assert_eq!(plan_disposition(CommitPlan::Conflict), CredentialDisposition::Conflict);
}

#[test]
fn custody_steps_start_only_from_their_states() {
    assert!(checkout_allowed(TransactionState::Preparing).is_ok());
    assert_eq!(checkout_allowed(TransactionState::Running).unwrap_err().code, "INVALID_STATE");
    assert_eq!(commit_allowed(TransactionState::CheckedOut).unwrap(), true);
    assert_eq!(commit_allowed(TransactionState::CodexExited).unwrap(), true);
    assert_eq!(commit_allowed(TransactionState::CommittingAuth).unwrap(), false);
    assert_eq!(commit_allowed(TransactionState::Cleaned).unwrap_err().code, "INVALID_STATE");
    assert!(verify_written("h", "h", "copy failed").is_ok());
    let error = verify_written("h", "g", "copy failed").unwrap_err();
    assert_eq!(error.code, "STORAGE_FAILURE");
    assert_eq!(error.message, "copy failed");
}

#[test]
fn preparing_recovery_distinguishes_the_checkout_boundary() {
    assert_eq!(preparing_plan(false, "v", None), PreparingPlan::NothingCheckedOut);
    assert_eq!(preparing_plan(true, "v", Some("v")), PreparingPlan::CheckoutBoundary);
    assert_eq!(preparing_plan(true, "v", Some("r")), PreparingPlan::Ambiguous);
    assert_eq!(preparing_plan(true, "v", None), PreparingPlan::Ambiguous);
}

#[test]
fn evidence_is_named_under_the_transaction() {
    let name = evidence_file_name("credential-conflict", "0123");
    assert_eq!(name, "credential-conflict-0123.json");
    assert_eq!(evidence_relative_path("transaction_1", &name), "recovery/transaction_1/credential-conflict-0123.json");
    assert_eq!(vault_backup_name("incident_9"), "vault-before-resolution-incident_9.json");
}

fn transaction(state: TransactionState) -> LaunchTransaction {
    LaunchTransaction {
        transaction_id: "transaction_1".to_owned(),
        launch_id: "launch_1".to_owned(),
        project_id: "project_1".to_owned(),
        account_id: "account_1".to_owned(),
        state,
        runner_pid: Some(10),
        codex_pid: Some(11),
        boot_id: Some("boot-1".to_owned()),
        runner_start_ticks: Some(100),
        codex_start_ticks: Some(200),
        runner_identity: Some("runner-digest".to_owned()),
        codex_identity: Some("codex-digest".to_owned()),
        vault_hash_before_checkout: Some("baseline".to_owned()),
        runtime_hash_at_checkout: None,
        runtime_hash_at_recovery: None,
        vault_hash_at_recovery: None,
        credential_backup_reference: None,
        last_error_code: None,
        last_error_message_redacted: None,
        recovery_attempts: 0,
        created_at: 1,
        updated_at: 1,
    }
}

#[test]
fn the_checkout_baseline_is_required_for_a_commit() {
    assert_eq!(checkout_baseline(&transaction(TransactionState::CheckedOut)).unwrap(), "baseline");
    let mut missing = transaction(TransactionState::CheckedOut);
    missing.vault_hash_before_checkout = None;
    assert_eq!(checkout_baseline(&missing).unwrap_err().code, "INVALID_STATE");
}

#[test]
fn recovery_routes_cover_every_state() {
    assert_eq!(recovery_route(TransactionState::Preparing), RecoveryRoute::CheckoutBoundary);
    assert_eq!(recovery_route(TransactionState::CheckedOut), RecoveryRoute::Commit);
    assert_eq!(recovery_route(TransactionState::Running), RecoveryRoute::ExitThenCommit);
    assert_eq!(recovery_route(TransactionState::CodexExited), RecoveryRoute::Commit);
    assert_eq!(recovery_route(TransactionState::CommittingAuth), RecoveryRoute::Commit);
    assert_eq!(recovery_route(TransactionState::AuthCommitted), RecoveryRoute::AfterVaultCommit);
    assert_eq!(recovery_route(TransactionState::Cleaned), RecoveryRoute::FinishCleaned);
    for state in [TransactionState::Finished, TransactionState::Recovered, TransactionState::CredentialConflict, TransactionState::Failed] {
        assert_eq!(recovery_route(state), RecoveryRoute::AlreadyTerminal);
    }
    assert_eq!(route_classification(RecoveryRoute::AfterVaultCommit), Some("completed_post_commit_cleanup"));
    assert_eq!(route_classification(RecoveryRoute::Commit), None);
    assert_eq!(commit_classification(CredentialDisposition::RuntimeCommitted), "runtime_credential_committed");
    assert_eq!(commit_classification(CredentialDisposition::NewerVaultPreserved), "newer_vault_preserved");
}

#[test]
fn recovery_reports_change_only_when_the_state_moved() {
    let moved = recovery_result("transaction_1", TransactionState::Running, TransactionState::Recovered, "credential_unchanged", None);
    assert!(moved.changed);
    let same = recovery_result("transaction_1", TransactionState::Failed, TransactionState::Failed, "already_terminal", None);
    assert!(!same.changed);
    let active = active_lock_result("transaction_1", TransactionState::Running);
    assert_eq!(active.classification, "active_flock");
    assert!(!active.changed);
    assert!(is_lock_contention("ACCOUNT_IN_USE"));
    assert!(is_lock_contention("PROJECT_IN_USE"));
    assert!(!is_lock_contention("LOCKED"));
}

fn incident(status: &str, action: Option<&str>) -> RecoveryIncident {
    RecoveryIncident {
        incident_id: "incident_1".to_owned(),
        transaction_id: "transaction_1".to_owned(),
        project_id: "project_1".to_owned(),
        account_id: "account_1".to_owned(),
        kind: "credential_conflict".to_owned(),
        status: status.to_owned(),
        evidence_relative_path: Some("recovery/transaction_1/credential-conflict-1.json".to_owned()),
        resolution_action: action.map(str::to_owned),
        resolution_summary: None,
        created_at: 1,
        updated_at: 1,
        resolved_at: None,
    }
}

#[test]
fn incident_resolution_is_explicit_and_idempotent() {
    assert_eq!(resolution_start(&incident("open", None), KEEP_VAULT).unwrap(), ResolutionStart::Apply);
    assert_eq!(resolution_start(&incident("open", None), USE_EVIDENCE).unwrap(), ResolutionStart::Apply);
    assert_eq!(resolution_start(&incident("open", None), "delete").unwrap_err().code, "INVALID_REQUEST");
    assert_eq!(resolution_start(&incident("resolved", Some(KEEP_VAULT)), KEEP_VAULT).unwrap(), ResolutionStart::AlreadyResolved);
    assert_eq!(resolution_start(&incident("resolved", Some(KEEP_VAULT)), USE_EVIDENCE).unwrap_err().code, "CONFLICT");
    assert_eq!(resolution_summary(KEEP_VAULT), "validated Vault retained; Runtime credential cleared");
    assert_eq!(evidence_candidate(&incident("open", None)).unwrap(), "recovery/transaction_1/credential-conflict-1.json");
}

#[test]
fn evidence_paths_stay_relative_and_name_json_files() {
    assert!(check_evidence_path("recovery/t/credential-conflict-1.json").is_ok());
    assert!(check_evidence_path("recovery/t/x.json/").is_ok());
    assert_eq!(check_evidence_path("/etc/passwd.json").unwrap_err().code, "PATH_REJECTED");
    assert_eq!(check_evidence_path("recovery/../x.json").unwrap_err().code, "PATH_REJECTED");
    assert_eq!(check_evidence_path("recovery/t/x.txt").unwrap_err().code, "PATH_REJECTED");
    assert_eq!(check_evidence_path("recovery/t/.json").unwrap_err().code, "PATH_REJECTED");
    assert_eq!(check_evidence_path("").unwrap_err().code, "PATH_REJECTED");
}

#[test]
fn process_identity_requires_boot_ticks_and_digest() {
    let t = transaction(TransactionState::Running);
    let same = ProcessIdentity { pid: 10, boot_id: "boot-1".to_owned(), start_ticks: 100, identity: "runner-digest".to_owned() };
    assert_eq!(recorded_pid(&t, true, "boot-1"), Some(10));
    assert_eq!(recorded_pid(&t, false, "boot-1"), Some(11));
    assert_eq!(recorded_pid(&t, true, "boot-2"), None);
    assert!(matches_recorded(&t, true, "boot-1", Some(&same)));
    let restarted = ProcessIdentity { start_ticks: 101, ..same.clone() };
    assert!(!matches_recorded(&t, true, "boot-1", Some(&restarted)));
    assert!(!matches_recorded(&t, true, "boot-2", Some(&same)));
    assert!(!matches_recorded(&t, true, "boot-1", None));
    assert!(!matches_recorded(&t, false, "boot-1", Some(&same)));
}

#[test]
fn boot_identity_and_start_ticks_are_parsed_strictly() {
    assert_eq!(validate_boot_id(" 0123456789abcdef-01\n").unwrap(), "0123456789abcdef-01");
    assert_eq!(validate_boot_id("short").unwrap_err().code, "PROCESS_IDENTITY_UNCONFIRMED");
    assert_eq!(validate_boot_id("0123456789abcdefgh").unwrap_err().code, "PROCESS_IDENTITY_UNCONFIRMED");
    let stat = "4242 (odd) name) S 1 2 3 4 5 6 7 8 9 10 11 12 13 14 15 16 17 18 98765 20";
    assert_eq!(start_ticks_from_stat(stat), Some(98765));
    assert_eq!(start_ticks_from_stat("4242 no parenthesis"), None);
    assert_eq!(start_ticks_from_stat("1 (x) S 1 2"), None);
}

#[test]
fn digests_are_lowercase_hex_sha256() {
    assert_eq!(hex_bytes(&[0x00, 0xab, 0x7f]), "00ab7f");
    assert_eq!(hex_sha256(b"abc"), "ba7816bf8f01cfea414140de5dae2223b00361a396177a9cb410ff61f20015ad");
    assert_eq!(credential_hash(br#"{"fixture":"alpha"}"#).unwrap(), hex_sha256(br#"{"fixture":"alpha"}"#));
    assert_eq!(credential_hash(b"{incomplete").unwrap_err().code, "INVALID_CREDENTIAL");
    assert_eq!(credential_hash(b"[1,2]").unwrap_err().code, "INVALID_CREDENTIAL");
    let identity = process_image_identity("muxlaned", b"ELF");
    assert_eq!(identity.len(), 64);
    assert_ne!(identity, process_image_identity("muxlaned", b"ELG"));
}
