//! Credential custody decisions: when a Vault credential may be checked out
//! into a project Runtime, and what committing the Runtime credential back
//! does, decided from the three credential hashes alone.

use vstd::prelude::*;
use vstd::string::*;

use crate::error::{CoreError, CoreResult};
use crate::model::{Account, LaunchTransaction, TransactionState};
use crate::rows::{is_storage_failure, SqlParam};
use crate::storage::{read_from, 
    grown, is_attempt_insert, is_backup_update, is_failing, is_incident_insert, is_launch_finish,
    is_recovery_hashes_update, is_transition_to, storage_or, text_is, Storage,
};
use crate::text::{has_control, is_blank, str_eq, str_has_control, str_is_blank, trim, trim_str};

verus! {

/// What committing a launch's credential did.
#[derive(Debug, Clone, Copy, PartialEq, Eq, Structural)]
pub enum CredentialDisposition {
    /// Neither the Vault nor the Runtime credential changed.
    Unchanged,
    /// The Runtime's refreshed credential is now in the Vault.
    RuntimeCommitted,
    /// The Vault changed and the Runtime did not; the Vault is kept.
    NewerVaultPreserved,
    /// Both changed differently; both are preserved and nothing is chosen.
    Conflict,
}

/// What the commit step does with the credentials.
#[derive(Debug, Clone, Copy, PartialEq, Eq, Structural)]
pub enum CommitPlan {
    /// Nothing changed: the Runtime copy is cleaned away.
    KeepUnchanged,
    /// Only the Vault changed: it is kept and the Runtime copy cleaned away.
    KeepNewerVault,
    /// The Vault already holds the Runtime's credential.
    AlreadyCommitted,
    /// Only the Runtime changed: the prior Vault is preserved as evidence and
    /// the Runtime credential is written into the Vault.
    CommitRuntime,
    /// Both changed differently: the Runtime credential is preserved as
    /// evidence and the transaction ends in conflict.
    Conflict,
}

/// The commit plan for a checkout baseline hash and the Vault and Runtime
/// hashes found at commit time.
pub open spec fn commit_plan_of(baseline: Seq<char>, vault: Seq<char>, runtime: Seq<char>) -> CommitPlan {
    if runtime == baseline {
        if vault == baseline {
            CommitPlan::KeepUnchanged
        } else {
            CommitPlan::KeepNewerVault
        }
    } else if vault == runtime {
        CommitPlan::AlreadyCommitted
    } else if vault == baseline {
        CommitPlan::CommitRuntime
    } else {
        CommitPlan::Conflict
    }
}

pub fn commit_plan(baseline: &str, vault_hash: &str, runtime_hash: &str) -> (r: CommitPlan)
    ensures
        r == commit_plan_of(baseline@, vault_hash@, runtime_hash@),
        runtime_hash@ == baseline@ && vault_hash@ == baseline@ ==> r == CommitPlan::KeepUnchanged,
        runtime_hash@ == baseline@ && vault_hash@ != baseline@ ==> r == CommitPlan::KeepNewerVault,
        runtime_hash@ != baseline@ && vault_hash@ == runtime_hash@ ==> r == CommitPlan::AlreadyCommitted,
        runtime_hash@ != baseline@ && vault_hash@ != runtime_hash@ && vault_hash@ == baseline@ ==> r
            == CommitPlan::CommitRuntime,
        runtime_hash@ != baseline@ && vault_hash@ != runtime_hash@ && vault_hash@ != baseline@ ==> r
            == CommitPlan::Conflict,
{
    if str_eq(runtime_hash, baseline) {
        if str_eq(vault_hash, baseline) {
            CommitPlan::KeepUnchanged
        } else {
            CommitPlan::KeepNewerVault
        }
    } else if str_eq(vault_hash, runtime_hash) {
        CommitPlan::AlreadyCommitted
    } else if str_eq(vault_hash, baseline) {
        CommitPlan::CommitRuntime
    } else {
        CommitPlan::Conflict
    }
}

/// The disposition a commit plan reports.
pub open spec fn disposition_of(plan: CommitPlan) -> CredentialDisposition {
    match plan {
        CommitPlan::KeepUnchanged => CredentialDisposition::Unchanged,
        CommitPlan::KeepNewerVault => CredentialDisposition::NewerVaultPreserved,
        CommitPlan::AlreadyCommitted => CredentialDisposition::RuntimeCommitted,
        CommitPlan::CommitRuntime => CredentialDisposition::RuntimeCommitted,
        CommitPlan::Conflict => CredentialDisposition::Conflict,
    }
}

pub fn plan_disposition(plan: CommitPlan) -> (r: CredentialDisposition)
    ensures
        r == disposition_of(plan),
        plan == CommitPlan::KeepUnchanged ==> r == CredentialDisposition::Unchanged,
        plan == CommitPlan::KeepNewerVault ==> r == CredentialDisposition::NewerVaultPreserved,
        plan == CommitPlan::AlreadyCommitted || plan == CommitPlan::CommitRuntime ==> r
            == CredentialDisposition::RuntimeCommitted,
        plan == CommitPlan::Conflict ==> r == CredentialDisposition::Conflict,
{
    match plan {
        CommitPlan::KeepUnchanged => CredentialDisposition::Unchanged,
        CommitPlan::KeepNewerVault => CredentialDisposition::NewerVaultPreserved,
        CommitPlan::AlreadyCommitted => CredentialDisposition::RuntimeCommitted,
        CommitPlan::CommitRuntime => CredentialDisposition::RuntimeCommitted,
        CommitPlan::Conflict => CredentialDisposition::Conflict,
    }
}

/// The Vault is written only when it still holds the credential that was
/// checked out and the Runtime holds another: a Vault refreshed meanwhile is
/// never overwritten.
pub proof fn lemma_vault_written_only_over_baseline(
    baseline: Seq<char>,
    vault: Seq<char>,
    runtime: Seq<char>,
)
    requires
        commit_plan_of(baseline, vault, runtime) == CommitPlan::CommitRuntime,
    ensures
        vault == baseline,
        runtime != baseline,
{
}

/// A conflict is declared exactly when the Vault and the Runtime both moved
/// away from the checked-out credential, to different credentials.
pub proof fn lemma_conflict_exactly_when_both_changed(
    baseline: Seq<char>,
    vault: Seq<char>,
    runtime: Seq<char>,
)
    ensures
        (commit_plan_of(baseline, vault, runtime) == CommitPlan::Conflict) <==> (vault != baseline
            && runtime != baseline && vault != runtime),
{
}

/// After every commit that is not a conflict the Vault holds the newest
/// credential: the Runtime's when it changed, the Vault's own otherwise.
pub proof fn lemma_commit_keeps_newest_credential(
    baseline: Seq<char>,
    vault: Seq<char>,
    runtime: Seq<char>,
)
    ensures
        commit_plan_of(baseline, vault, runtime) != CommitPlan::Conflict ==> (runtime != baseline
            ==> (commit_plan_of(baseline, vault, runtime) == CommitPlan::CommitRuntime || vault
            == runtime)),
        commit_plan_of(baseline, vault, runtime) == CommitPlan::KeepUnchanged <==> (vault
            == baseline && runtime == baseline),
{
}

/// Checkout is allowed only from `preparing`.
pub fn checkout_allowed(state: TransactionState) -> (r: CoreResult<()>)
    ensures
        r is Ok <==> state == TransactionState::Preparing,
        r matches Err(e) ==> e.code@ == "INVALID_STATE"@,
{
    if state != TransactionState::Preparing {
        return Err(CoreError::new("INVALID_STATE", "credential checkout is not allowed"));
    }
    Ok(())
}

/// The states a credential commit may start from.
pub open spec fn may_commit(state: TransactionState) -> bool {
    state == TransactionState::CheckedOut || state == TransactionState::CodexExited || state
        == TransactionState::CommittingAuth
}

/// Whether a commit may start, and whether it must first move the
/// transaction to `committing_auth`.
pub fn commit_allowed(state: TransactionState) -> (r: CoreResult<bool>)
    ensures
        r is Ok <==> may_commit(state),
        r matches Ok(enter) ==> enter == (state != TransactionState::CommittingAuth),
        r matches Err(e) ==> e.code@ == "INVALID_STATE"@,
{
    match state {
        TransactionState::CheckedOut | TransactionState::CodexExited => Ok(true),
        TransactionState::CommittingAuth => Ok(false),
        _ => Err(CoreError::new("INVALID_STATE", "credential commit is not allowed")),
    }
}

/// The Vault hash recorded at checkout, which every commit compares against.
pub fn checkout_baseline(transaction: &LaunchTransaction) -> (r: CoreResult<&str>)
    ensures
        r is Ok <==> transaction.vault_hash_before_checkout is Some,
        r matches Ok(h) ==> transaction.vault_hash_before_checkout matches Some(b) && h@ == b@,
        r matches Err(e) ==> e.code@ == "INVALID_STATE"@,
{
    match &transaction.vault_hash_before_checkout {
        Some(hash) => Ok(hash.as_str()),
        None => Err(CoreError::new("INVALID_STATE", "checkout hash evidence is missing")),
    }
}

/// A written credential must read back with the hash it was written with.
pub fn verify_written(written_hash: &str, expected_hash: &str, message: &str) -> (r: CoreResult<()>)
    ensures
        r is Ok <==> written_hash@ == expected_hash@,
        r matches Err(e) ==> e.code@ == "STORAGE_FAILURE"@ && e.message@ == message@,
{
    if !str_eq(written_hash, expected_hash) {
        return Err(CoreError::new("STORAGE_FAILURE", message));
    }
    Ok(())
}

/// What recovering a transaction left in `preparing` does.
#[derive(Debug, Clone, Copy, PartialEq, Eq, Structural)]
pub enum PreparingPlan {
    /// No Runtime credential exists: nothing was checked out.
    NothingCheckedOut,
    /// The Runtime holds exactly the Vault credential: checkout finished
    /// writing but not recording; the copy is removed.
    CheckoutBoundary,
    /// The Runtime holds something else, or something unreadable: it is
    /// preserved as evidence and the transaction fails.
    Ambiguous,
}

/// The plan for a `preparing` transaction, from whether a Runtime credential
/// exists, the Vault hash, and the Runtime hash when it could be read.
pub open spec fn preparing_plan_of(
    runtime_present: bool,
    vault: Seq<char>,
    runtime: Option<Seq<char>>,
) -> PreparingPlan {
    if !runtime_present {
        PreparingPlan::NothingCheckedOut
    } else if runtime == Some(vault) {
        PreparingPlan::CheckoutBoundary
    } else {
        PreparingPlan::Ambiguous
    }
}

pub fn preparing_plan(runtime_present: bool, vault_hash: &str, runtime_hash: Option<&str>) -> (r:
    PreparingPlan)
    ensures
        r == preparing_plan_of(
            runtime_present,
            vault_hash@,
            match runtime_hash {
                Some(h) => Some(h@),
                None => None,
            },
        ),
        !runtime_present ==> r == PreparingPlan::NothingCheckedOut,
        runtime_present && (runtime_hash matches Some(h) && h@ == vault_hash@) ==> r
            == PreparingPlan::CheckoutBoundary,
        runtime_present && !(runtime_hash matches Some(h) && h@ == vault_hash@) ==> r
            == PreparingPlan::Ambiguous,
{
    if !runtime_present {
        return PreparingPlan::NothingCheckedOut;
    }
    match runtime_hash {
        Some(hash) => if str_eq(hash, vault_hash) {
            PreparingPlan::CheckoutBoundary
        } else {
            PreparingPlan::Ambiguous
        },
        None => PreparingPlan::Ambiguous,
    }
}

/// The name of a preserved credential file: its label, a fresh suffix, and
/// `.json`.
pub fn evidence_file_name(label: &str, suffix: &str) -> (r: String)
    ensures
        r@ == label@ + "-"@ + suffix@ + ".json"@,
{
    let mut name = String::from_str(label);
    name.append("-");
    name.append(suffix);
    name.append(".json");
    name
}

/// Where preserved evidence of a transaction is recorded, relative to the
/// runtime root.
pub fn evidence_relative_path(transaction_id: &str, file_name: &str) -> (r: String)
    ensures
        r@ == "recovery/"@ + transaction_id@ + "/"@ + file_name@,
{
    let mut path = String::from_str("recovery/");
    path.append(transaction_id);
    path.append("/");
    path.append(file_name);
    path
}

/// An account's display name: not blank, at most 120 bytes, and free of
/// control characters.
pub open spec fn is_display_name(name: Seq<char>) -> bool {
    &&& !is_blank(name)
    &&& vstd::utf8::encode_utf8(name).len() <= 120
    &&& !has_control(name)
}

pub fn validate_display_name(display_name: &str) -> (r: CoreResult<()>)
    ensures
        r is Ok <==> is_display_name(display_name@),
        r matches Err(e) ==> e.code@ == "INVALID_REQUEST"@,
{
    if str_is_blank(display_name) || display_name.as_bytes().len() > 120 || str_has_control(
        display_name,
    ) {
        return Err(CoreError::new("INVALID_REQUEST", "account display name is invalid"));
    }
    Ok(())
}

/// Where an account's Vault credential is recorded, relative to the runtime
/// root.
pub fn vault_relative_path(account_id: &str) -> (r: String)
    ensures
        r@ == "accounts/"@ + account_id@ + "/auth.json"@,
{
    let mut path = String::from_str("accounts/");
    path.append(account_id);
    path.append("/auth.json");
    path
}

/// A newly imported account: its name trimmed, its login status unknown, not
/// occupied, created and updated at `timestamp`.
pub fn imported_account(account_id: &str, display_name: &str, credential_hash: &str, timestamp: i64)
    -> (r: Account)
    ensures
        r.account_id@ == account_id@,
        r.display_name@ == trim(display_name@),
        r.masked_email is None,
        r.plan_type is None,
        r.login_status@ == "unknown"@,
        r.credential_hash@ == credential_hash@,
        !r.occupied,
        r.created_at == timestamp,
        r.updated_at == timestamp,
{
    Account {
        account_id: String::from_str(account_id),
        display_name: String::from_str(trim_str(display_name)),
        masked_email: None,
        plan_type: None,
        login_status: String::from_str("unknown"),
        credential_hash: String::from_str(credential_hash),
        occupied: false,
        created_at: timestamp,
        updated_at: timestamp,
    }
}

/// Reads a transaction about to check out its credential; only a `preparing`
/// one may.
pub fn begin_checkout(storage: &mut Storage, transaction_id: &str) -> (r: CoreResult<LaunchTransaction>)
    ensures
        read_from(*old(storage), *final(storage)),
        r matches Ok(t) ==> t.state == TransactionState::Preparing,
        r matches Err(e) ==> storage_or(e, "NOT_FOUND"@) || e.code@ == "INVALID_STATE"@,
{
    let transaction = storage.transaction(transaction_id)?;
    checkout_allowed(transaction.state)?;
    Ok(transaction)
}

/// Starts committing a launch's credential: the transaction must be
/// `checked_out`, `codex_exited` or `committing_auth`; it is moved to
/// `committing_auth` and read back.
pub fn begin_commit(storage: &mut Storage, transaction_id: &str) -> (r: CoreResult<LaunchTransaction>)
    ensures
        final(storage).spec_layout() == old(storage).spec_layout(),
        grown(old(storage).issued(), final(storage).issued()),
        r is Ok ==> final(storage).issued() == old(storage).issued() || (final(storage).issued().len()
            == old(storage).issued().len() + 1 && is_transition_to(
            final(storage).issued().last(),
            transaction_id@,
            TransactionState::CommittingAuth,
        )),
        r matches Err(e) ==> storage_or(e, "NOT_FOUND"@) || e.code@ == "INVALID_STATE"@,
{
    let transaction = storage.transaction(transaction_id)?;
    let enter = commit_allowed(transaction.state)?;
    if enter {
        storage.transition(transaction_id, TransactionState::CommittingAuth)?;
    }
    storage.transaction(transaction_id)
}

/// Records the Vault and Runtime hashes found at commit time and decides the
/// commit from them and the checkout baseline.
pub fn plan_commit(
    storage: &mut Storage,
    transaction_id: &str,
    baseline: &str,
    vault_hash: &str,
    runtime_hash: &str,
) -> (r: CoreResult<CommitPlan>)
    ensures
        final(storage).spec_layout() == old(storage).spec_layout(),
        grown(old(storage).issued(), final(storage).issued()),
        final(storage).issued().len() <= old(storage).issued().len() + 1,
        r matches Ok(p) ==> p == commit_plan_of(baseline@, vault_hash@, runtime_hash@)
            && final(storage).issued().len() == old(storage).issued().len() + 1
            && is_recovery_hashes_update(
            final(storage).issued().last(),
            transaction_id@,
            Some(vault_hash@),
            Some(runtime_hash@),
        ),
        r matches Err(e) ==> is_storage_failure(e),
{
    storage.record_recovery_hashes(transaction_id, Some(vault_hash), Some(runtime_hash))?;
    Ok(commit_plan(baseline, vault_hash, runtime_hash))
}

/// Which credential failed validation at commit time.
#[derive(Debug, Clone, Copy, PartialEq, Eq, Structural)]
pub enum CredentialSide {
    Vault,
    Runtime,
}

/// The failure message recorded when the credential on `side` is invalid.
pub open spec fn invalid_credential_record(side: CredentialSide) -> Seq<char> {
    match side {
        CredentialSide::Vault => "Vault credential validation failed; Runtime evidence was isolated"@,
        CredentialSide::Runtime => "Runtime credential validation failed and was isolated"@,
    }
}

/// The statements, issued after `before`, that record the preserved evidence
/// of transaction `id` and then fail it with `code` and `message`; a
/// transaction already terminal is not failed again.
pub open spec fn is_isolating(
    before: Seq<(Seq<char>, Seq<SqlParam>)>,
    after: Seq<(Seq<char>, Seq<SqlParam>)>,
    id: Seq<char>,
    evidence: Seq<char>,
    code: Seq<char>,
    message: Seq<char>,
) -> bool {
    let o = before.len() as int;
    &&& after.len() > o
    &&& is_backup_update(after[o], id, evidence)
    &&& after.len() == o + 1 || is_failing(before.push(after[o]), after, id, code, message)
}

/// Records the preserved Runtime evidence of a commit that found `side`
/// invalid and fails the transaction; the error to report is returned.
pub fn isolate_invalid_credential(
    storage: &mut Storage,
    transaction_id: &str,
    side: CredentialSide,
    evidence: &str,
) -> (e: CoreError)
    ensures
        final(storage).spec_layout() == old(storage).spec_layout(),
        grown(old(storage).issued(), final(storage).issued()),
        storage_or(e, "NOT_FOUND"@) || (e.code@ == "INVALID_CREDENTIAL"@ && e.message@ == (
        match side {
            CredentialSide::Vault => "Vault credential is invalid"@,
            CredentialSide::Runtime => "Runtime credential is invalid"@,
        })),
        e.code@ == "INVALID_CREDENTIAL"@ ==> is_isolating(
            old(storage).issued(),
            final(storage).issued(),
            transaction_id@,
            evidence@,
            "INVALID_CREDENTIAL"@,
            invalid_credential_record(side),
        ),
{
    proof {
        reveal_strlit("INVALID_CREDENTIAL");
        reveal_strlit("STORAGE_FAILURE");
        reveal_strlit("NOT_FOUND");
        assert("INVALID_CREDENTIAL"@.len() == 18);
        assert("STORAGE_FAILURE"@.len() == 15);
        assert("NOT_FOUND"@.len() == 9);
    }
    if let Err(error) = storage.record_backup(transaction_id, evidence) {
        return error;
    }
    let ghost backed = storage.issued();
    let (recorded, reported) = match side {
        CredentialSide::Vault => (
            "Vault credential validation failed; Runtime evidence was isolated",
            "Vault credential is invalid",
        ),
        CredentialSide::Runtime => (
            "Runtime credential validation failed and was isolated",
            "Runtime credential is invalid",
        ),
    };
    if let Err(error) = storage.fail(transaction_id, "INVALID_CREDENTIAL", recorded) {
        return error;
    }
    proof {
        let o = old(storage).issued().len() as int;
        assert(storage.issued()[o] == backed[o]);
        assert(backed == old(storage).issued().push(backed[o]));
    }
    CoreError::new("INVALID_CREDENTIAL", reported)
}

/// The statements, issued after `before`, that put transaction `id` in
/// credential conflict: the evidence recorded, the state moved, the incident
/// opened with the evidence unless one was open, the attempt recorded on that
/// incident, and the launch ended in conflict.
pub open spec fn is_conflict_record(
    before: Seq<(Seq<char>, Seq<SqlParam>)>,
    after: Seq<(Seq<char>, Seq<SqlParam>)>,
    id: Seq<char>,
    evidence: Seq<char>,
) -> bool {
    let o = before.len() as int;
    let n = after.len() as int;
    &&& n == o + 4 || n == o + 5
    &&& is_backup_update(after[o], id, evidence)
    &&& is_transition_to(after[o + 1], id, TransactionState::CredentialConflict)
    &&& n == o + 5 ==> is_incident_insert(after[o + 2], id, "credential_conflict"@, Some(evidence))
    &&& exists|incident: Seq<char>|
        #[trigger] is_attempt_insert(
            after[n - 2],
            incident,
            id,
            "vault_and_runtime_changed"@,
            TransactionState::CredentialConflict,
            Some("CREDENTIAL_CONFLICT"@),
        ) && (n == o + 5 ==> text_is(after[o + 2].1[0], incident))
    &&& is_launch_finish(after[n - 1], id, "credential_conflict"@)
}

/// Ends a commit in which the Vault and the Runtime both changed: the
/// preserved Runtime evidence is recorded, the transaction moves to
/// `credential_conflict`, an incident is opened with the evidence, the attempt
/// is recorded and the launch ends in conflict. Nothing is chosen.
pub fn record_conflict(storage: &mut Storage, transaction_id: &str, evidence: &str) -> (r: CoreResult<
    CredentialDisposition,
>)
    ensures
        final(storage).spec_layout() == old(storage).spec_layout(),
        grown(old(storage).issued(), final(storage).issued()),
        r matches Ok(d) ==> d == CredentialDisposition::Conflict && is_conflict_record(
            old(storage).issued(),
            final(storage).issued(),
            transaction_id@,
            evidence@,
        ),
        r is Ok ==> crate::recovery::follows_path(
            final(storage).issued().subrange(
                old(storage).issued().len() as int + 1,
                old(storage).issued().len() as int + 2,
            ),
            transaction_id@,
            crate::recovery::conflict_path(TransactionState::CommittingAuth),
        ),
        r matches Err(e) ==> storage_or(e, "NOT_FOUND"@) || e.code@ == "INVALID_STATE"@,
{
    storage.record_backup(transaction_id, evidence)?;
    let ghost s1 = storage.issued();
    storage.transition(transaction_id, TransactionState::CredentialConflict)?;
    let ghost s2 = storage.issued();
    let incident = storage.create_incident(transaction_id, "credential_conflict", Some(evidence))?;
    let ghost s3 = storage.issued();
    storage.record_recovery_attempt(
        incident.as_str(),
        transaction_id,
        "vault_and_runtime_changed",
        TransactionState::CredentialConflict,
        Some("CREDENTIAL_CONFLICT"),
    )?;
    let ghost s4 = storage.issued();
    storage.finish_launch(transaction_id, "credential_conflict")?;
    proof {
        let o = old(storage).issued().len() as int;
        let f = storage.issued();
        let n = f.len() as int;
        assert(f[o] == s1[o]);
        assert(f[o + 1] == s2[o + 1]);
        assert(f[n - 2] == s4[n - 2]);
        if s3.len() == o + 3 {
            assert(f[o + 2] == s3[o + 2]);
        }
        assert(is_attempt_insert(
            f[n - 2],
            incident@,
            transaction_id@,
            "vault_and_runtime_changed"@,
            TransactionState::CredentialConflict,
            Some("CREDENTIAL_CONFLICT"@),
        ));
    }
    Ok(CredentialDisposition::Conflict)
}

/// Reads a transaction whose checkout boundary recovery examines; only a
/// `preparing` one may be examined.
pub fn begin_preparing_recovery(storage: &mut Storage, transaction_id: &str) -> (r: CoreResult<
    LaunchTransaction,
>)
    ensures
        read_from(*old(storage), *final(storage)),
        r matches Ok(t) ==> t.state == TransactionState::Preparing,
        r matches Err(e) ==> storage_or(e, "NOT_FOUND"@) || e.code@ == "INVALID_STATE"@,
{
    let transaction = storage.transaction(transaction_id)?;
    if transaction.state != TransactionState::Preparing {
        return Err(CoreError::new("INVALID_STATE", "preparing recovery is not allowed"));
    }
    Ok(transaction)
}

/// The launch outcome recorded when a `preparing` transaction is recovered.
pub open spec fn preparing_outcome(plan: PreparingPlan) -> Seq<char> {
    match plan {
        PreparingPlan::NothingCheckedOut => "recovered_before_checkout"@,
        _ => "recovered_checkout_boundary"@,
    }
}

/// A recovered `preparing` launch is finished as `recovered_before_checkout`
/// when nothing was checked out and as `recovered_checkout_boundary` when the
/// Vault's own credential was; the two outcomes are told apart.
pub proof fn lemma_preparing_outcomes()
    ensures
        preparing_outcome(PreparingPlan::NothingCheckedOut) == "recovered_before_checkout"@,
        preparing_outcome(PreparingPlan::CheckoutBoundary) == "recovered_checkout_boundary"@,
        preparing_outcome(PreparingPlan::NothingCheckedOut) != preparing_outcome(
            PreparingPlan::CheckoutBoundary,
        ),
{
    reveal_strlit("recovered_before_checkout");
    reveal_strlit("recovered_checkout_boundary");
    assert("recovered_before_checkout"@[10] != "recovered_checkout_boundary"@[10]);
}

/// Ends recovery of a `preparing` transaction once the host has acted on the
/// plan: with nothing or the Vault's own credential checked out, it is
/// recovered; an ambiguous Runtime credential, already preserved as
/// `evidence`, is recorded and the transaction fails.
pub fn finish_preparing(
    storage: &mut Storage,
    transaction_id: &str,
    plan: PreparingPlan,
    evidence: &str,
) -> (r: CoreResult<CredentialDisposition>)
    ensures
        final(storage).spec_layout() == old(storage).spec_layout(),
        grown(old(storage).issued(), final(storage).issued()),
        r is Ok ==> plan != PreparingPlan::Ambiguous,
        r matches Ok(d) ==> d == CredentialDisposition::Unchanged,
        r is Ok ==> final(storage).issued().len() == old(storage).issued().len() + 2
            && is_transition_to(
            final(storage).issued()[old(storage).issued().len() as int],
            transaction_id@,
            TransactionState::Recovered,
        ) && is_launch_finish(final(storage).issued().last(), transaction_id@, preparing_outcome(plan)),
        r is Ok && plan == PreparingPlan::NothingCheckedOut ==> is_launch_finish(
            final(storage).issued().last(),
            transaction_id@,
            "recovered_before_checkout"@,
        ),
        r is Ok && plan == PreparingPlan::CheckoutBoundary ==> is_launch_finish(
            final(storage).issued().last(),
            transaction_id@,
            "recovered_checkout_boundary"@,
        ),
        r is Ok ==> crate::recovery::follows_path(
            final(storage).issued().subrange(
                old(storage).issued().len() as int,
                old(storage).issued().len() as int + 1,
            ),
            transaction_id@,
            crate::recovery::recovery_path(TransactionState::Preparing),
        ),
        plan == PreparingPlan::Ambiguous ==> (r matches Err(e) && (e.code@ == "RECOVERY_REQUIRED"@
            || storage_or(e, "NOT_FOUND"@))),
        r matches Err(e) && e.code@ == "RECOVERY_REQUIRED"@ ==> is_isolating(
            old(storage).issued(),
            final(storage).issued(),
            transaction_id@,
            evidence@,
            "RECOVERY_REQUIRED"@,
            "ambiguous credential checkout was isolated"@,
        ),
        r matches Err(e) ==> storage_or(e, "NOT_FOUND"@) || e.code@ == "INVALID_STATE"@
            || e.code@ == "RECOVERY_REQUIRED"@,
{
    proof {
        reveal_strlit("RECOVERY_REQUIRED");
        reveal_strlit("STORAGE_FAILURE");
        reveal_strlit("NOT_FOUND");
        reveal_strlit("INVALID_STATE");
        assert("RECOVERY_REQUIRED"@.len() == 17);
        assert("STORAGE_FAILURE"@.len() == 15);
        assert("NOT_FOUND"@.len() == 9);
        assert("INVALID_STATE"@.len() == 13);
    }
    match plan {
        PreparingPlan::NothingCheckedOut => {
            storage.transition(transaction_id, TransactionState::Recovered)?;
            let ghost moved = storage.issued();
            storage.finish_launch(transaction_id, "recovered_before_checkout")?;
            assert(storage.issued()[old(storage).issued().len() as int] == moved[old(
                storage,
            ).issued().len() as int]);
            Ok(CredentialDisposition::Unchanged)
        },
        PreparingPlan::CheckoutBoundary => {
            storage.transition(transaction_id, TransactionState::Recovered)?;
            let ghost moved = storage.issued();
            storage.finish_launch(transaction_id, "recovered_checkout_boundary")?;
            assert(storage.issued()[old(storage).issued().len() as int] == moved[old(
                storage,
            ).issued().len() as int]);
            Ok(CredentialDisposition::Unchanged)
        },
        PreparingPlan::Ambiguous => {
            storage.record_backup(transaction_id, evidence)?;
            let ghost backed = storage.issued();
            storage.fail(transaction_id, "RECOVERY_REQUIRED", "ambiguous credential checkout was isolated")?;
            proof {
                let o = old(storage).issued().len() as int;
                assert(storage.issued()[o] == backed[o]);
                assert(backed == old(storage).issued().push(backed[o]));
            }
            Err(CoreError::new("RECOVERY_REQUIRED", "credential checkout boundary is ambiguous"))
        },
    }
}

} // verus!
