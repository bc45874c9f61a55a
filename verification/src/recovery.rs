//! Startup recovery decisions: which route a transaction interrupted in a
//! given state takes, which state transitions that route performs, and what
//! the recovery reports.

use vstd::prelude::*;
use vstd::string::*;

use crate::credential::CredentialDisposition;
use crate::error::{CoreError, CoreResult};
use crate::model::{LaunchTransaction, RecoveryResult, TransactionState};
use crate::rows::SqlParam;
use crate::storage::{
    grown, is_attempt_insert, is_failing, is_incident_insert, is_launch_finish, is_transition_to,
    storage_or, text_is, Storage,
};
use crate::text::str_eq;

verus! {

/// How recovery proceeds for a transaction found in a given state.
#[derive(Debug, Clone, Copy, PartialEq, Eq, Structural)]
pub enum RecoveryRoute {
    /// `preparing`: the checkout boundary is examined.
    CheckoutBoundary,
    /// `checked_out`, `codex_exited` or `committing_auth`: the credential is
    /// committed and the Runtime cleaned.
    Commit,
    /// `running` with no live recorded process: Codex is recorded as exited,
    /// then the credential is committed.
    ExitThenCommit,
    /// `auth_committed`: the Vault already holds the Runtime credential; the
    /// Runtime copy is verified and removed.
    AfterVaultCommit,
    /// `cleaned`: only the final state is missing.
    FinishCleaned,
    /// A terminal state: nothing is done.
    AlreadyTerminal,
}

pub open spec fn route_of(state: TransactionState) -> RecoveryRoute {
    match state {
        TransactionState::Preparing => RecoveryRoute::CheckoutBoundary,
        TransactionState::CheckedOut => RecoveryRoute::Commit,
        TransactionState::Running => RecoveryRoute::ExitThenCommit,
        TransactionState::CodexExited => RecoveryRoute::Commit,
        TransactionState::CommittingAuth => RecoveryRoute::Commit,
        TransactionState::AuthCommitted => RecoveryRoute::AfterVaultCommit,
        TransactionState::Cleaned => RecoveryRoute::FinishCleaned,
        _ => RecoveryRoute::AlreadyTerminal,
    }
}

pub fn recovery_route(state: TransactionState) -> (r: RecoveryRoute)
    ensures
        r == route_of(state),
        state == TransactionState::Preparing ==> r == RecoveryRoute::CheckoutBoundary,
        state == TransactionState::CheckedOut || state == TransactionState::CodexExited || state
            == TransactionState::CommittingAuth ==> r == RecoveryRoute::Commit,
        state == TransactionState::Running ==> r == RecoveryRoute::ExitThenCommit,
        state == TransactionState::AuthCommitted ==> r == RecoveryRoute::AfterVaultCommit,
        state == TransactionState::Cleaned ==> r == RecoveryRoute::FinishCleaned,
        state == TransactionState::Finished || state == TransactionState::Recovered || state
            == TransactionState::CredentialConflict || state == TransactionState::Failed ==> r
            == RecoveryRoute::AlreadyTerminal,
{
    match state {
        TransactionState::Preparing => RecoveryRoute::CheckoutBoundary,
        TransactionState::CheckedOut => RecoveryRoute::Commit,
        TransactionState::Running => RecoveryRoute::ExitThenCommit,
        TransactionState::CodexExited => RecoveryRoute::Commit,
        TransactionState::CommittingAuth => RecoveryRoute::Commit,
        TransactionState::AuthCommitted => RecoveryRoute::AfterVaultCommit,
        TransactionState::Cleaned => RecoveryRoute::FinishCleaned,
        _ => RecoveryRoute::AlreadyTerminal,
    }
}

/// The states a successful recovery moves a transaction through, in order.
pub open spec fn recovery_path(state: TransactionState) -> Seq<TransactionState> {
    match state {
        TransactionState::Preparing => seq![TransactionState::Recovered],
        TransactionState::CheckedOut => seq![
            TransactionState::CommittingAuth,
            TransactionState::AuthCommitted,
            TransactionState::Cleaned,
            TransactionState::Recovered,
        ],
        TransactionState::Running => seq![
            TransactionState::CodexExited,
            TransactionState::CommittingAuth,
            TransactionState::AuthCommitted,
            TransactionState::Cleaned,
            TransactionState::Recovered,
        ],
        TransactionState::CodexExited => seq![
            TransactionState::CommittingAuth,
            TransactionState::AuthCommitted,
            TransactionState::Cleaned,
            TransactionState::Recovered,
        ],
        TransactionState::CommittingAuth => seq![
            TransactionState::AuthCommitted,
            TransactionState::Cleaned,
            TransactionState::Recovered,
        ],
        TransactionState::AuthCommitted => seq![
            TransactionState::Cleaned,
            TransactionState::Recovered,
        ],
        TransactionState::Cleaned => seq![TransactionState::Recovered],
        _ => Seq::<TransactionState>::empty(),
    }
}

/// The states a recovery that meets a credential conflict moves through.
pub open spec fn conflict_path(state: TransactionState) -> Seq<TransactionState> {
    match state {
        TransactionState::CheckedOut => seq![
            TransactionState::CommittingAuth,
            TransactionState::CredentialConflict,
        ],
        TransactionState::Running => seq![
            TransactionState::CodexExited,
            TransactionState::CommittingAuth,
            TransactionState::CredentialConflict,
        ],
        TransactionState::CodexExited => seq![
            TransactionState::CommittingAuth,
            TransactionState::CredentialConflict,
        ],
        TransactionState::CommittingAuth => seq![TransactionState::CredentialConflict],
        _ => Seq::<TransactionState>::empty(),
    }
}

/// Every step of `path`, taken from `start`, is a transition the state
/// machine permits.
pub open spec fn chain_allowed(start: TransactionState, path: Seq<TransactionState>) -> bool
    decreases path.len(),
{
    if path.len() == 0 {
        true
    } else {
        start.allows(path[0]) && chain_allowed(path[0], path.drop_first())
    }
}

proof fn lemma_chain_step(start: TransactionState, path: Seq<TransactionState>)
    requires
        path.len() > 0,
        start.allows(path[0]),
        chain_allowed(path[0], path.drop_first()),
    ensures
        chain_allowed(start, path),
{
}

/// Recovery only ever performs transitions the state machine permits, on
/// its successful route and on a route that meets a credential conflict;
/// from any state that is not terminal it ends `recovered`, or
/// `credential_conflict` when both credentials changed.
#[verifier::rlimit(40)]
pub proof fn lemma_recovery_paths_are_permitted(state: TransactionState)
    ensures
        chain_allowed(state, recovery_path(state)),
        chain_allowed(state, conflict_path(state)),
        !state.is_terminal() ==> recovery_path(state).len() > 0 && recovery_path(state).last()
            == TransactionState::Recovered,
        route_of(state) == RecoveryRoute::Commit || route_of(state) == RecoveryRoute::ExitThenCommit
            ==> conflict_path(state).len() > 0 && conflict_path(state).last()
            == TransactionState::CredentialConflict,
        state.is_terminal() <==> recovery_path(state).len() == 0,
{
    let r = TransactionState::Recovered;
    let c = TransactionState::Cleaned;
    let a = TransactionState::AuthCommitted;
    let m = TransactionState::CommittingAuth;
    let x = TransactionState::CodexExited;
    let k = TransactionState::CredentialConflict;
    let tail_r: Seq<TransactionState> = seq![r];
    let tail_cr: Seq<TransactionState> = seq![c, r];
    let tail_acr: Seq<TransactionState> = seq![a, c, r];
    let tail_macr: Seq<TransactionState> = seq![m, a, c, r];
    let tail_xmacr: Seq<TransactionState> = seq![x, m, a, c, r];
    assert(chain_allowed(r, Seq::<TransactionState>::empty()));
    assert(tail_r.drop_first() =~= Seq::<TransactionState>::empty());
    lemma_chain_step(c, tail_r);
    assert(tail_cr.drop_first() =~= tail_r);
    lemma_chain_step(a, tail_cr);
    assert(tail_acr.drop_first() =~= tail_cr);
    lemma_chain_step(m, tail_acr);
    assert(tail_macr.drop_first() =~= tail_acr);
    lemma_chain_step(x, tail_macr);
    assert(tail_xmacr.drop_first() =~= tail_macr);
    let tail_k: Seq<TransactionState> = seq![k];
    let tail_mk: Seq<TransactionState> = seq![m, k];
    let tail_xmk: Seq<TransactionState> = seq![x, m, k];
    assert(chain_allowed(k, Seq::<TransactionState>::empty()));
    assert(tail_k.drop_first() =~= Seq::<TransactionState>::empty());
    lemma_chain_step(m, tail_k);
    assert(tail_mk.drop_first() =~= tail_k);
    lemma_chain_step(x, tail_mk);
    assert(tail_xmk.drop_first() =~= tail_mk);
    match state {
        TransactionState::Preparing => {
            lemma_chain_step(state, tail_r);
        },
        TransactionState::CheckedOut => {
            lemma_chain_step(state, tail_macr);
            lemma_chain_step(state, tail_mk);
        },
        TransactionState::Running => {
            lemma_chain_step(state, tail_xmacr);
            lemma_chain_step(state, tail_xmk);
        },
        TransactionState::CodexExited => {
            lemma_chain_step(state, tail_macr);
            lemma_chain_step(state, tail_mk);
        },
        TransactionState::CommittingAuth => {
            lemma_chain_step(state, tail_acr);
            lemma_chain_step(state, tail_k);
        },
        TransactionState::AuthCommitted => {
            lemma_chain_step(state, tail_cr);
        },
        TransactionState::Cleaned => {
            lemma_chain_step(state, tail_r);
        },
        _ => {},
    }
}

/// The classification a credential commit reports, by its disposition.
pub open spec fn commit_label(disposition: CredentialDisposition) -> Seq<char> {
    match disposition {
        CredentialDisposition::Unchanged => "credential_unchanged"@,
        CredentialDisposition::RuntimeCommitted => "runtime_credential_committed"@,
        CredentialDisposition::NewerVaultPreserved => "newer_vault_preserved"@,
        CredentialDisposition::Conflict => "credential_conflict"@,
    }
}

/// A recovery classification when the credential commit finished without a
/// conflict, or `credential_conflict`.
pub fn commit_classification(disposition: CredentialDisposition) -> (r: &'static str)
    ensures
        r@ == commit_label(disposition),
        disposition == CredentialDisposition::Unchanged ==> r@ == "credential_unchanged"@,
        disposition == CredentialDisposition::RuntimeCommitted ==> r@ == "runtime_credential_committed"@,
        disposition == CredentialDisposition::NewerVaultPreserved ==> r@ == "newer_vault_preserved"@,
        disposition == CredentialDisposition::Conflict ==> r@ == "credential_conflict"@,
{
    match disposition {
        CredentialDisposition::Unchanged => "credential_unchanged",
        CredentialDisposition::RuntimeCommitted => "runtime_credential_committed",
        CredentialDisposition::NewerVaultPreserved => "newer_vault_preserved",
        CredentialDisposition::Conflict => "credential_conflict",
    }
}

/// The classification of a route that does not commit a credential.
pub fn route_classification(route: RecoveryRoute) -> (r: Option<&'static str>)
    ensures
        route == RecoveryRoute::CheckoutBoundary ==> (r matches Some(s) && s@ == "checkout_boundary_cleaned"@),
        route == RecoveryRoute::AfterVaultCommit ==> (r matches Some(s) && s@ == "completed_post_commit_cleanup"@),
        route == RecoveryRoute::FinishCleaned ==> (r matches Some(s) && s@ == "completed_cleaned_transaction"@),
        route == RecoveryRoute::AlreadyTerminal ==> (r matches Some(s) && s@ == "already_terminal"@),
        route == RecoveryRoute::Commit || route == RecoveryRoute::ExitThenCommit ==> r is None,
{
    match route {
        RecoveryRoute::CheckoutBoundary => Some("checkout_boundary_cleaned"),
        RecoveryRoute::AfterVaultCommit => Some("completed_post_commit_cleanup"),
        RecoveryRoute::FinishCleaned => Some("completed_cleaned_transaction"),
        RecoveryRoute::AlreadyTerminal => Some("already_terminal"),
        RecoveryRoute::Commit | RecoveryRoute::ExitThenCommit => None,
    }
}

/// A lock held by another live owner is recovery's sign that the launch is
/// still active.
pub fn is_lock_contention(code: &str) -> (r: bool)
    ensures
        r == (code@ == "ACCOUNT_IN_USE"@ || code@ == "PROJECT_IN_USE"@),
{
    str_eq(code, "ACCOUNT_IN_USE") || str_eq(code, "PROJECT_IN_USE")
}

/// What recovery reports for one transaction: it changed the transaction
/// exactly when the state it left differs from the state it found.
pub fn recovery_result(
    transaction_id: &str,
    previous_state: TransactionState,
    state: TransactionState,
    classification: &str,
    incident_id: Option<String>,
) -> (r: RecoveryResult)
    ensures
        r.transaction_id@ == transaction_id@,
        r.previous_state == previous_state,
        r.state == state,
        r.classification@ == classification@,
        r.changed == (state != previous_state),
        r.incident_id == incident_id,
{
    RecoveryResult {
        transaction_id: String::from_str(transaction_id),
        previous_state,
        state,
        classification: String::from_str(classification),
        changed: state != previous_state,
        incident_id,
    }
}

/// The report for a transaction whose launch still holds its locks: nothing
/// is touched.
pub fn active_lock_result(transaction_id: &str, state: TransactionState) -> (r: RecoveryResult)
    ensures
        r.transaction_id@ == transaction_id@,
        r.previous_state == state,
        r.state == state,
        r.classification@ == "active_flock"@,
        !r.changed,
        r.incident_id is None,
{
    recovery_result(transaction_id, state, state, "active_flock", None)
}


/// Recovering a transaction that already ended does nothing: its route is to
/// leave it, with no transition. Recovery run twice is therefore run once.
pub proof fn lemma_recovery_of_ended_transaction_is_noop(state: TransactionState)
    requires
        state.is_terminal(),
    ensures
        route_of(state) == RecoveryRoute::AlreadyTerminal,
        recovery_path(state).len() == 0,
        conflict_path(state).len() == 0,
{
}

/// Every successful recovery route ends in a state that recovery leaves
/// alone when it runs again.
pub proof fn lemma_recovery_is_idempotent(state: TransactionState)
    requires
        !state.is_terminal(),
    ensures
        route_of(recovery_path(state).last()) == RecoveryRoute::AlreadyTerminal,
        conflict_path(state).len() > 0 ==> route_of(conflict_path(state).last())
            == RecoveryRoute::AlreadyTerminal,
{
    lemma_recovery_paths_are_permitted(state);
}

/// The statements, issued after `before`, that record a recovery attempt of
/// transaction `id` on `incident`: the incident's insert, unless it was
/// already open, then the attempt's.
pub open spec fn is_incident_attempt(
    before: Seq<(Seq<char>, Seq<SqlParam>)>,
    after: Seq<(Seq<char>, Seq<SqlParam>)>,
    id: Seq<char>,
    kind: Seq<char>,
    classification: Seq<char>,
    error_code: Option<Seq<char>>,
    incident: Seq<char>,
) -> bool {
    let o = before.len() as int;
    &&& after.len() == o + 1 || after.len() == o + 2
    &&& grown(before, after)
    &&& after.len() == o + 2 ==> is_incident_insert(after[o], id, kind, None) && text_is(
        after[o].1[0],
        incident,
    )
    &&& is_attempt_insert(after.last(), incident, id, classification, TransactionState::Failed, error_code)
}

/// Fails a launch whose recorded process is alive while no one holds its
/// locks, opens a `process_without_lock` incident and records the attempt.
pub fn record_process_without_lock(storage: &mut Storage, transaction: &LaunchTransaction) -> (r:
    CoreResult<RecoveryResult>)
    ensures
        r matches Ok(res) ==> res.transaction_id@ == transaction.transaction_id@
            && res.previous_state == transaction.state && res.state == TransactionState::Failed
            && res.classification@ == "process_without_lock"@ && res.changed
            && res.incident_id is Some,
        final(storage).spec_layout() == old(storage).spec_layout(),
        grown(old(storage).issued(), final(storage).issued()),
        r matches Ok(res) ==> exists|failed: Seq<(Seq<char>, Seq<SqlParam>)>|
            #[trigger] grown(old(storage).issued(), failed) && (failed == old(storage).issued()
                || is_failing(
                old(storage).issued(),
                failed,
                transaction.transaction_id@,
                "PROCESS_IDENTITY_UNCONFIRMED"@,
                "recorded process exists without the required active flock owner"@,
            )) && is_incident_attempt(
                failed,
                final(storage).issued(),
                transaction.transaction_id@,
                "process_without_lock"@,
                "process_without_lock"@,
                Some("PROCESS_IDENTITY_UNCONFIRMED"@),
                res.incident_id->0@,
            ),
        r matches Err(e) ==> storage_or(e, "NOT_FOUND"@),
{
    let id = transaction.transaction_id.as_str();
    storage.fail(
        id,
        "PROCESS_IDENTITY_UNCONFIRMED",
        "recorded process exists without the required active flock owner",
    )?;
    let ghost failed = storage.issued();
    let incident = storage.create_incident(id, "process_without_lock", None)?;
    storage.record_recovery_attempt(
        incident.as_str(),
        id,
        "process_without_lock",
        TransactionState::Failed,
        Some("PROCESS_IDENTITY_UNCONFIRMED"),
    )?;
    proof {
        assert(is_incident_attempt(
            failed,
            storage.issued(),
            transaction.transaction_id@,
            "process_without_lock"@,
            "process_without_lock"@,
            Some("PROCESS_IDENTITY_UNCONFIRMED"@),
            incident@,
        ));
    }
    Ok(RecoveryResult {
        transaction_id: String::from_str(id),
        previous_state: transaction.state,
        state: TransactionState::Failed,
        classification: String::from_str("process_without_lock"),
        changed: true,
        incident_id: Some(incident),
    })
}

/// Reports a `preparing` transaction whose checkout boundary was ambiguous:
/// a `checkout_ambiguous` incident is opened and the attempt recorded with
/// the error that examining the boundary returned.
pub fn record_checkout_ambiguous(
    storage: &mut Storage,
    transaction: &LaunchTransaction,
    error_code: &str,
) -> (r: CoreResult<RecoveryResult>)
    ensures
        r matches Ok(res) ==> res.transaction_id@ == transaction.transaction_id@
            && res.previous_state == transaction.state && res.state == TransactionState::Failed
            && res.classification@ == "checkout_ambiguous"@ && res.changed
            && res.incident_id is Some,
        final(storage).spec_layout() == old(storage).spec_layout(),
        grown(old(storage).issued(), final(storage).issued()),
        r matches Ok(res) ==> is_incident_attempt(
            old(storage).issued(),
            final(storage).issued(),
            transaction.transaction_id@,
            "checkout_ambiguous"@,
            "checkout_ambiguous"@,
            Some(error_code@),
            res.incident_id->0@,
        ),
        r matches Err(e) ==> storage_or(e, "NOT_FOUND"@),
{
    let id = transaction.transaction_id.as_str();
    let incident = storage.create_incident(id, "checkout_ambiguous", None)?;
    storage.record_recovery_attempt(
        incident.as_str(),
        id,
        "checkout_ambiguous",
        TransactionState::Failed,
        Some(error_code),
    )?;
    assert(is_incident_attempt(
        old(storage).issued(),
        storage.issued(),
        transaction.transaction_id@,
        "checkout_ambiguous"@,
        "checkout_ambiguous"@,
        Some(error_code@),
        incident@,
    ));
    Ok(RecoveryResult {
        transaction_id: String::from_str(id),
        previous_state: transaction.state,
        state: TransactionState::Failed,
        classification: String::from_str("checkout_ambiguous"),
        changed: true,
        incident_id: Some(incident),
    })
}

/// `moves` are transitions of transaction `id` through `path`, one for one.
pub open spec fn follows_path(
    moves: Seq<(Seq<char>, Seq<SqlParam>)>,
    id: Seq<char>,
    path: Seq<TransactionState>,
) -> bool {
    moves.len() == path.len() && forall|i: int|
        0 <= i < path.len() ==> is_transition_to(#[trigger] moves[i], id, path[i])
}

/// The statements, issued after `before`, that recover transaction `id` and
/// end its launch as `recovered`.
pub open spec fn is_recovered_ending(
    before: Seq<(Seq<char>, Seq<SqlParam>)>,
    after: Seq<(Seq<char>, Seq<SqlParam>)>,
    id: Seq<char>,
) -> bool {
    let o = before.len() as int;
    &&& after.len() == o + 2
    &&& is_transition_to(after[o], id, TransactionState::Recovered)
    &&& is_launch_finish(after[o + 1], id, "recovered"@)
}

/// Ends the recovery of a transaction whose credential was committed with
/// `disposition`: a conflict stays as the commit left it; any other outcome
/// is recovered and its launch ended. The classification is returned.
pub fn finish_commit_recovery(
    storage: &mut Storage,
    transaction_id: &str,
    disposition: CredentialDisposition,
) -> (r: CoreResult<&'static str>)
    ensures
        final(storage).spec_layout() == old(storage).spec_layout(),
        grown(old(storage).issued(), final(storage).issued()),
        r matches Ok(c) ==> c@ == commit_label(disposition),
        disposition == CredentialDisposition::Conflict ==> r is Ok && final(storage).issued()
            == old(storage).issued(),
        disposition != CredentialDisposition::Conflict && r is Ok ==> is_recovered_ending(
            old(storage).issued(),
            final(storage).issued(),
            transaction_id@,
        ),
        r matches Err(e) ==> storage_or(e, "NOT_FOUND"@) || e.code@ == "INVALID_STATE"@,
{
    if disposition == CredentialDisposition::Conflict {
        return Ok(commit_classification(disposition));
    }
    finish_cleaned(storage, transaction_id)?;
    Ok(commit_classification(disposition))
}

/// Recovers a `cleaned` transaction: only its final state was missing.
pub fn finish_cleaned(storage: &mut Storage, transaction_id: &str) -> (r: CoreResult<()>)
    ensures
        final(storage).spec_layout() == old(storage).spec_layout(),
        grown(old(storage).issued(), final(storage).issued()),
        r is Ok ==> is_recovered_ending(old(storage).issued(), final(storage).issued(), transaction_id@),
        r is Ok ==> follows_path(
            final(storage).issued().subrange(
                old(storage).issued().len() as int,
                old(storage).issued().len() as int + 1,
            ),
            transaction_id@,
            recovery_path(TransactionState::Cleaned),
        ),
        r matches Err(e) ==> storage_or(e, "NOT_FOUND"@) || e.code@ == "INVALID_STATE"@,
{
    storage.transition(transaction_id, TransactionState::Recovered)?;
    let ghost moved = storage.issued();
    storage.finish_launch(transaction_id, "recovered")?;
    proof {
        let o = old(storage).issued().len() as int;
        assert(storage.issued()[o] == moved[o]);
    }
    Ok(())
}

/// Before the Runtime copy of a committed credential is removed it must be
/// there and must match the Vault.
pub fn check_post_commit(runtime_present: bool, runtime_hash: &str, vault_hash: &str) -> (r:
    CoreResult<()>)
    ensures
        r is Ok <==> runtime_present && runtime_hash@ == vault_hash@,
        !runtime_present ==> (r matches Err(e) && e.code@ == "RECOVERY_REQUIRED"@),
        runtime_present && runtime_hash@ != vault_hash@ ==> (r matches Err(e) && e.code@
            == "CREDENTIAL_CONFLICT"@),
{
    if !runtime_present {
        return Err(CoreError::new("RECOVERY_REQUIRED", "post-commit Runtime evidence is missing"));
    }
    if !str_eq(runtime_hash, vault_hash) {
        return Err(
            CoreError::new("CREDENTIAL_CONFLICT", "post-commit credential hashes do not match"),
        );
    }
    Ok(())
}

/// Ends the recovery of an `auth_committed` transaction whose Runtime copy,
/// checked equal to the Vault, was removed: it is cleaned, recovered, and its
/// launch ended.
pub fn finish_after_vault_commit(storage: &mut Storage, transaction_id: &str) -> (r: CoreResult<()>)
    ensures
        final(storage).spec_layout() == old(storage).spec_layout(),
        grown(old(storage).issued(), final(storage).issued()),
        r is Ok ==> final(storage).issued().len() == old(storage).issued().len() + 3
            && is_transition_to(
            final(storage).issued()[old(storage).issued().len() as int],
            transaction_id@,
            TransactionState::Cleaned,
        ) && is_recovered_ending(
            old(storage).issued().push(final(storage).issued()[old(storage).issued().len() as int]),
            final(storage).issued(),
            transaction_id@,
        ),
        r is Ok ==> follows_path(
            final(storage).issued().subrange(
                old(storage).issued().len() as int,
                old(storage).issued().len() as int + 2,
            ),
            transaction_id@,
            recovery_path(TransactionState::AuthCommitted),
        ),
        r matches Err(e) ==> storage_or(e, "NOT_FOUND"@) || e.code@ == "INVALID_STATE"@,
{
    storage.transition(transaction_id, TransactionState::Cleaned)?;
    let ghost cleaned = storage.issued();
    finish_cleaned(storage, transaction_id)?;
    proof {
        let o = old(storage).issued().len() as int;
        assert(storage.issued()[o] == cleaned[o]);
        assert(cleaned.len() == old(storage).issued().push(storage.issued()[o]).len());
    }
    Ok(())
}

/// The report of a recovered transaction, read back from storage: it changed
/// exactly when its state differs from the one recovery found, and a
/// transaction left in credential conflict gets an incident naming its
/// preserved evidence.
pub fn conclude_recovery(storage: &mut Storage, transaction: &LaunchTransaction, classification: &str)
    -> (r: CoreResult<RecoveryResult>)
    ensures
        r matches Ok(res) ==> res.transaction_id@ == transaction.transaction_id@
            && res.previous_state == transaction.state && res.classification@ == classification@
            && res.changed == (res.state != transaction.state) && (res.incident_id is Some
            <==> res.state == TransactionState::CredentialConflict),
        final(storage).spec_layout() == old(storage).spec_layout(),
        grown(old(storage).issued(), final(storage).issued()),
        r is Ok ==> final(storage).issued() == old(storage).issued() || (final(storage).issued().len()
            == old(storage).issued().len() + 1 && exists|evidence: Option<Seq<char>>|
            #[trigger] is_incident_insert(
                final(storage).issued().last(),
                transaction.transaction_id@,
                "credential_conflict"@,
                evidence,
            )),
        r matches Ok(res) && res.state != TransactionState::CredentialConflict
            ==> final(storage).issued() == old(storage).issued(),
        r matches Err(e) ==> storage_or(e, "NOT_FOUND"@),
{
    let id = transaction.transaction_id.as_str();
    let current = storage.transaction(id)?;
    let incident_id = if current.state == TransactionState::CredentialConflict {
        let evidence = match &current.credential_backup_reference {
            Some(reference) => Some(reference.as_str()),
            None => None,
        };
        Some(storage.create_incident(id, "credential_conflict", evidence)?)
    } else {
        None
    };
    Ok(recovery_result(id, transaction.state, current.state, classification, incident_id))
}

} // verus!
