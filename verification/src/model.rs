//! Durable domain records and the launch transaction state machine.

use vstd::prelude::*;
use vstd::string::*;

use crate::text::str_eq;

verus! {

/// The durable state of one launch transaction.
#[derive(Debug, Clone, Copy, PartialEq, Eq, Structural)]
pub enum TransactionState {
    Preparing,
    CheckedOut,
    Running,
    CodexExited,
    CommittingAuth,
    AuthCommitted,
    Cleaned,
    Finished,
    Recovered,
    CredentialConflict,
    Failed,
}

impl TransactionState {
    /// The stored name of a state.
    pub open spec fn name(self) -> Seq<char> {
        match self {
            TransactionState::Preparing => "preparing"@,
            TransactionState::CheckedOut => "checked_out"@,
            TransactionState::Running => "running"@,
            TransactionState::CodexExited => "codex_exited"@,
            TransactionState::CommittingAuth => "committing_auth"@,
            TransactionState::AuthCommitted => "auth_committed"@,
            TransactionState::Cleaned => "cleaned"@,
            TransactionState::Finished => "finished"@,
            TransactionState::Recovered => "recovered"@,
            TransactionState::CredentialConflict => "credential_conflict"@,
            TransactionState::Failed => "failed"@,
        }
    }

    /// The state stored under a name, if any.
    pub open spec fn from_name(value: Seq<char>) -> Option<TransactionState> {
        if value == "preparing"@ {
            Some(TransactionState::Preparing)
        } else if value == "checked_out"@ {
            Some(TransactionState::CheckedOut)
        } else if value == "running"@ {
            Some(TransactionState::Running)
        } else if value == "codex_exited"@ {
            Some(TransactionState::CodexExited)
        } else if value == "committing_auth"@ {
            Some(TransactionState::CommittingAuth)
        } else if value == "auth_committed"@ {
            Some(TransactionState::AuthCommitted)
        } else if value == "cleaned"@ {
            Some(TransactionState::Cleaned)
        } else if value == "finished"@ {
            Some(TransactionState::Finished)
        } else if value == "recovered"@ {
            Some(TransactionState::Recovered)
        } else if value == "credential_conflict"@ {
            Some(TransactionState::CredentialConflict)
        } else if value == "failed"@ {
            Some(TransactionState::Failed)
        } else {
            None
        }
    }

    /// Terminal states never change again.
    pub open spec fn is_terminal(self) -> bool {
        match self {
            TransactionState::Finished | TransactionState::Recovered
            | TransactionState::CredentialConflict | TransactionState::Failed => true,
            _ => false,
        }
    }

    /// The transitions the launch protocol allows, staying put included.
    pub open spec fn allows(self, next: TransactionState) -> bool {
        self == next || match (self, next) {
            (TransactionState::Preparing, TransactionState::CheckedOut)
            | (TransactionState::Preparing, TransactionState::Recovered)
            | (TransactionState::Preparing, TransactionState::Failed)
            | (TransactionState::CheckedOut, TransactionState::Running)
            | (TransactionState::CheckedOut, TransactionState::CommittingAuth)
            | (TransactionState::CheckedOut, TransactionState::Failed)
            | (TransactionState::CheckedOut, TransactionState::CredentialConflict)
            | (TransactionState::Running, TransactionState::CodexExited)
            | (TransactionState::Running, TransactionState::Failed)
            | (TransactionState::CodexExited, TransactionState::CommittingAuth)
            | (TransactionState::CodexExited, TransactionState::Failed)
            | (TransactionState::CommittingAuth, TransactionState::AuthCommitted)
            | (TransactionState::CommittingAuth, TransactionState::CredentialConflict)
            | (TransactionState::CommittingAuth, TransactionState::Failed)
            | (TransactionState::AuthCommitted, TransactionState::Cleaned)
            | (TransactionState::AuthCommitted, TransactionState::Failed)
            | (TransactionState::Cleaned, TransactionState::Finished)
            | (TransactionState::Cleaned, TransactionState::Recovered) => true,
            _ => false,
        }
    }

    pub fn as_str(self) -> (s: &'static str)
        ensures
            s@ == self.name(),
    {
        match self {
            TransactionState::Preparing => "preparing",
            TransactionState::CheckedOut => "checked_out",
            TransactionState::Running => "running",
            TransactionState::CodexExited => "codex_exited",
            TransactionState::CommittingAuth => "committing_auth",
            TransactionState::AuthCommitted => "auth_committed",
            TransactionState::Cleaned => "cleaned",
            TransactionState::Finished => "finished",
            TransactionState::Recovered => "recovered",
            TransactionState::CredentialConflict => "credential_conflict",
            TransactionState::Failed => "failed",
        }
    }

    pub fn parse(value: &str) -> (r: Option<TransactionState>)
        ensures
            r == TransactionState::from_name(value@),
    {
        if str_eq(value, "preparing") {
            Some(TransactionState::Preparing)
        } else if str_eq(value, "checked_out") {
            Some(TransactionState::CheckedOut)
        } else if str_eq(value, "running") {
            Some(TransactionState::Running)
        } else if str_eq(value, "codex_exited") {
            Some(TransactionState::CodexExited)
        } else if str_eq(value, "committing_auth") {
            Some(TransactionState::CommittingAuth)
        } else if str_eq(value, "auth_committed") {
            Some(TransactionState::AuthCommitted)
        } else if str_eq(value, "cleaned") {
            Some(TransactionState::Cleaned)
        } else if str_eq(value, "finished") {
            Some(TransactionState::Finished)
        } else if str_eq(value, "recovered") {
            Some(TransactionState::Recovered)
        } else if str_eq(value, "credential_conflict") {
            Some(TransactionState::CredentialConflict)
        } else if str_eq(value, "failed") {
            Some(TransactionState::Failed)
        } else {
            None
        }
    }

    pub fn terminal(self) -> (r: bool)
        ensures
            r == self.is_terminal(),
    {
        match self {
            TransactionState::Finished | TransactionState::Recovered
            | TransactionState::CredentialConflict | TransactionState::Failed => true,
            _ => false,
        }
    }

    pub fn permits(self, next: TransactionState) -> (r: bool)
        ensures
            r == self.allows(next),
    {
        if self == next {
            return true;
        }
        match (self, next) {
            (TransactionState::Preparing, TransactionState::CheckedOut)
            | (TransactionState::Preparing, TransactionState::Recovered)
            | (TransactionState::Preparing, TransactionState::Failed)
            | (TransactionState::CheckedOut, TransactionState::Running)
            | (TransactionState::CheckedOut, TransactionState::CommittingAuth)
            | (TransactionState::CheckedOut, TransactionState::Failed)
            | (TransactionState::CheckedOut, TransactionState::CredentialConflict)
            | (TransactionState::Running, TransactionState::CodexExited)
            | (TransactionState::Running, TransactionState::Failed)
            | (TransactionState::CodexExited, TransactionState::CommittingAuth)
            | (TransactionState::CodexExited, TransactionState::Failed)
            | (TransactionState::CommittingAuth, TransactionState::AuthCommitted)
            | (TransactionState::CommittingAuth, TransactionState::CredentialConflict)
            | (TransactionState::CommittingAuth, TransactionState::Failed)
            | (TransactionState::AuthCommitted, TransactionState::Cleaned)
            | (TransactionState::AuthCommitted, TransactionState::Failed)
            | (TransactionState::Cleaned, TransactionState::Finished)
            | (TransactionState::Cleaned, TransactionState::Recovered) => true,
            _ => false,
        }
    }
}

/// Parsing the stored name of a state gives the state back.
pub proof fn lemma_parse_inverts_as_str(state: TransactionState)
    ensures
        TransactionState::from_name(state.name()) == Some(state),
{
    match state {
        TransactionState::Preparing => {
        },
        TransactionState::CheckedOut => {
            assert("checked_out"@ != "preparing"@) by {
                reveal_strlit("checked_out");
                reveal_strlit("preparing");
                assert("checked_out"@.len() == 11);
                assert("preparing"@.len() == 9);
            }
        },
        TransactionState::Running => {
            assert("running"@ != "preparing"@) by {
                reveal_strlit("running");
                reveal_strlit("preparing");
                assert("running"@.len() == 7);
                assert("preparing"@.len() == 9);
            }
            assert("running"@ != "checked_out"@) by {
                reveal_strlit("running");
                reveal_strlit("checked_out");
                assert("running"@.len() == 7);
                assert("checked_out"@.len() == 11);
            }
        },
        TransactionState::CodexExited => {
            assert("codex_exited"@ != "preparing"@) by {
                reveal_strlit("codex_exited");
                reveal_strlit("preparing");
                assert("codex_exited"@.len() == 12);
                assert("preparing"@.len() == 9);
            }
            assert("codex_exited"@ != "checked_out"@) by {
                reveal_strlit("codex_exited");
                reveal_strlit("checked_out");
                assert("codex_exited"@.len() == 12);
                assert("checked_out"@.len() == 11);
            }
            assert("codex_exited"@ != "running"@) by {
                reveal_strlit("codex_exited");
                reveal_strlit("running");
                assert("codex_exited"@.len() == 12);
                assert("running"@.len() == 7);
            }
        },
        TransactionState::CommittingAuth => {
            assert("committing_auth"@ != "preparing"@) by {
                reveal_strlit("committing_auth");
                reveal_strlit("preparing");
                assert("committing_auth"@.len() == 15);
                assert("preparing"@.len() == 9);
            }
            assert("committing_auth"@ != "checked_out"@) by {
                reveal_strlit("committing_auth");
                reveal_strlit("checked_out");
                assert("committing_auth"@.len() == 15);
                assert("checked_out"@.len() == 11);
            }
            assert("committing_auth"@ != "running"@) by {
                reveal_strlit("committing_auth");
                reveal_strlit("running");
                assert("committing_auth"@.len() == 15);
                assert("running"@.len() == 7);
            }
            assert("committing_auth"@ != "codex_exited"@) by {
                reveal_strlit("committing_auth");
                reveal_strlit("codex_exited");
                assert("committing_auth"@.len() == 15);
                assert("codex_exited"@.len() == 12);
            }
        },
        TransactionState::AuthCommitted => {
            assert("auth_committed"@ != "preparing"@) by {
                reveal_strlit("auth_committed");
                reveal_strlit("preparing");
                assert("auth_committed"@.len() == 14);
                assert("preparing"@.len() == 9);
            }
            assert("auth_committed"@ != "checked_out"@) by {
                reveal_strlit("auth_committed");
                reveal_strlit("checked_out");
                assert("auth_committed"@.len() == 14);
                assert("checked_out"@.len() == 11);
            }
            assert("auth_committed"@ != "running"@) by {
                reveal_strlit("auth_committed");
                reveal_strlit("running");
                assert("auth_committed"@.len() == 14);
                assert("running"@.len() == 7);
            }
            assert("auth_committed"@ != "codex_exited"@) by {
                reveal_strlit("auth_committed");
                reveal_strlit("codex_exited");
                assert("auth_committed"@.len() == 14);
                assert("codex_exited"@.len() == 12);
            }
            assert("auth_committed"@ != "committing_auth"@) by {
                reveal_strlit("auth_committed");
                reveal_strlit("committing_auth");
                assert("auth_committed"@.len() == 14);
                assert("committing_auth"@.len() == 15);
            }
        },
        TransactionState::Cleaned => {
            assert("cleaned"@ != "preparing"@) by {
                reveal_strlit("cleaned");
                reveal_strlit("preparing");
                assert("cleaned"@.len() == 7);
                assert("preparing"@.len() == 9);
            }
            assert("cleaned"@ != "checked_out"@) by {
                reveal_strlit("cleaned");
                reveal_strlit("checked_out");
                assert("cleaned"@.len() == 7);
                assert("checked_out"@.len() == 11);
            }
            assert("cleaned"@ != "running"@) by {
                reveal_strlit("cleaned");
                reveal_strlit("running");
                assert("cleaned"@[0] != "running"@[0]);
            }
            assert("cleaned"@ != "codex_exited"@) by {
                reveal_strlit("cleaned");
                reveal_strlit("codex_exited");
                assert("cleaned"@.len() == 7);
                assert("codex_exited"@.len() == 12);
            }
            assert("cleaned"@ != "committing_auth"@) by {
                reveal_strlit("cleaned");
                reveal_strlit("committing_auth");
                assert("cleaned"@.len() == 7);
                assert("committing_auth"@.len() == 15);
            }
            assert("cleaned"@ != "auth_committed"@) by {
                reveal_strlit("cleaned");
                reveal_strlit("auth_committed");
                assert("cleaned"@.len() == 7);
                assert("auth_committed"@.len() == 14);
            }
        },
        TransactionState::Finished => {
            assert("finished"@ != "preparing"@) by {
                reveal_strlit("finished");
                reveal_strlit("preparing");
                assert("finished"@.len() == 8);
                assert("preparing"@.len() == 9);
            }
            assert("finished"@ != "checked_out"@) by {
                reveal_strlit("finished");
                reveal_strlit("checked_out");
                assert("finished"@.len() == 8);
                assert("checked_out"@.len() == 11);
            }
            assert("finished"@ != "running"@) by {
                reveal_strlit("finished");
                reveal_strlit("running");
                assert("finished"@.len() == 8);
                assert("running"@.len() == 7);
            }
            assert("finished"@ != "codex_exited"@) by {
                reveal_strlit("finished");
                reveal_strlit("codex_exited");
                assert("finished"@.len() == 8);
                assert("codex_exited"@.len() == 12);
            }
            assert("finished"@ != "committing_auth"@) by {
                reveal_strlit("finished");
                reveal_strlit("committing_auth");
                assert("finished"@.len() == 8);
                assert("committing_auth"@.len() == 15);
            }
            assert("finished"@ != "auth_committed"@) by {
                reveal_strlit("finished");
                reveal_strlit("auth_committed");
                assert("finished"@.len() == 8);
                assert("auth_committed"@.len() == 14);
            }
            assert("finished"@ != "cleaned"@) by {
                reveal_strlit("finished");
                reveal_strlit("cleaned");
                assert("finished"@.len() == 8);
                assert("cleaned"@.len() == 7);
            }
        },
        TransactionState::Recovered => {
            assert("recovered"@ != "preparing"@) by {
                reveal_strlit("recovered");
                reveal_strlit("preparing");
                assert("recovered"@[0] != "preparing"@[0]);
            }
            assert("recovered"@ != "checked_out"@) by {
                reveal_strlit("recovered");
                reveal_strlit("checked_out");
                assert("recovered"@.len() == 9);
                assert("checked_out"@.len() == 11);
            }
            assert("recovered"@ != "running"@) by {
                reveal_strlit("recovered");
                reveal_strlit("running");
                assert("recovered"@.len() == 9);
                assert("running"@.len() == 7);
            }
            assert("recovered"@ != "codex_exited"@) by {
                reveal_strlit("recovered");
                reveal_strlit("codex_exited");
                assert("recovered"@.len() == 9);
                assert("codex_exited"@.len() == 12);
            }
            assert("recovered"@ != "committing_auth"@) by {
                reveal_strlit("recovered");
                reveal_strlit("committing_auth");
                assert("recovered"@.len() == 9);
                assert("committing_auth"@.len() == 15);
            }
            assert("recovered"@ != "auth_committed"@) by {
                reveal_strlit("recovered");
                reveal_strlit("auth_committed");
                assert("recovered"@.len() == 9);
                assert("auth_committed"@.len() == 14);
            }
            assert("recovered"@ != "cleaned"@) by {
                reveal_strlit("recovered");
                reveal_strlit("cleaned");
                assert("recovered"@.len() == 9);
                assert("cleaned"@.len() == 7);
            }
            assert("recovered"@ != "finished"@) by {
                reveal_strlit("recovered");
                reveal_strlit("finished");
                assert("recovered"@.len() == 9);
                assert("finished"@.len() == 8);
            }
        },
        TransactionState::CredentialConflict => {
            assert("credential_conflict"@ != "preparing"@) by {
                reveal_strlit("credential_conflict");
                reveal_strlit("preparing");
                assert("credential_conflict"@.len() == 19);
                assert("preparing"@.len() == 9);
            }
            assert("credential_conflict"@ != "checked_out"@) by {
                reveal_strlit("credential_conflict");
                reveal_strlit("checked_out");
                assert("credential_conflict"@.len() == 19);
                assert("checked_out"@.len() == 11);
            }
            assert("credential_conflict"@ != "running"@) by {
                reveal_strlit("credential_conflict");
                reveal_strlit("running");
                assert("credential_conflict"@.len() == 19);
                assert("running"@.len() == 7);
            }
            assert("credential_conflict"@ != "codex_exited"@) by {
                reveal_strlit("credential_conflict");
                reveal_strlit("codex_exited");
                assert("credential_conflict"@.len() == 19);
                assert("codex_exited"@.len() == 12);
            }
            assert("credential_conflict"@ != "committing_auth"@) by {
                reveal_strlit("credential_conflict");
                reveal_strlit("committing_auth");
                assert("credential_conflict"@.len() == 19);
                assert("committing_auth"@.len() == 15);
            }
            assert("credential_conflict"@ != "auth_committed"@) by {
                reveal_strlit("credential_conflict");
                reveal_strlit("auth_committed");
                assert("credential_conflict"@.len() == 19);
                assert("auth_committed"@.len() == 14);
            }
            assert("credential_conflict"@ != "cleaned"@) by {
                reveal_strlit("credential_conflict");
                reveal_strlit("cleaned");
                assert("credential_conflict"@.len() == 19);
                assert("cleaned"@.len() == 7);
            }
            assert("credential_conflict"@ != "finished"@) by {
                reveal_strlit("credential_conflict");
                reveal_strlit("finished");
                assert("credential_conflict"@.len() == 19);
                assert("finished"@.len() == 8);
            }
            assert("credential_conflict"@ != "recovered"@) by {
                reveal_strlit("credential_conflict");
                reveal_strlit("recovered");
                assert("credential_conflict"@.len() == 19);
                assert("recovered"@.len() == 9);
            }
        },
        TransactionState::Failed => {
            assert("failed"@ != "preparing"@) by {
                reveal_strlit("failed");
                reveal_strlit("preparing");
                assert("failed"@.len() == 6);
                assert("preparing"@.len() == 9);
            }
            assert("failed"@ != "checked_out"@) by {
                reveal_strlit("failed");
                reveal_strlit("checked_out");
                assert("failed"@.len() == 6);
                assert("checked_out"@.len() == 11);
            }
            assert("failed"@ != "running"@) by {
                reveal_strlit("failed");
                reveal_strlit("running");
                assert("failed"@.len() == 6);
                assert("running"@.len() == 7);
            }
            assert("failed"@ != "codex_exited"@) by {
                reveal_strlit("failed");
                reveal_strlit("codex_exited");
                assert("failed"@.len() == 6);
                assert("codex_exited"@.len() == 12);
            }
            assert("failed"@ != "committing_auth"@) by {
                reveal_strlit("failed");
                reveal_strlit("committing_auth");
                assert("failed"@.len() == 6);
                assert("committing_auth"@.len() == 15);
            }
            assert("failed"@ != "auth_committed"@) by {
                reveal_strlit("failed");
                reveal_strlit("auth_committed");
                assert("failed"@.len() == 6);
                assert("auth_committed"@.len() == 14);
            }
            assert("failed"@ != "cleaned"@) by {
                reveal_strlit("failed");
                reveal_strlit("cleaned");
                assert("failed"@.len() == 6);
                assert("cleaned"@.len() == 7);
            }
            assert("failed"@ != "finished"@) by {
                reveal_strlit("failed");
                reveal_strlit("finished");
                assert("failed"@.len() == 6);
                assert("finished"@.len() == 8);
            }
            assert("failed"@ != "recovered"@) by {
                reveal_strlit("failed");
                reveal_strlit("recovered");
                assert("failed"@.len() == 6);
                assert("recovered"@.len() == 9);
            }
            assert("failed"@ != "credential_conflict"@) by {
                reveal_strlit("failed");
                reveal_strlit("credential_conflict");
                assert("failed"@.len() == 6);
                assert("credential_conflict"@.len() == 19);
            }
        },
    }
}

/// A name that parses to a state is that state's stored name.
pub proof fn lemma_as_str_inverts_parse(value: Seq<char>)
    ensures
        TransactionState::from_name(value) matches Some(s) ==> s.name() == value,
{
}

/// A terminal state permits no transition but staying where it is.
pub proof fn lemma_terminal_states_are_immutable(state: TransactionState, next: TransactionState)
    requires
        state.is_terminal(),
    ensures
        state.allows(next) <==> next == state,
{
}

/// Every state permits staying where it is.
pub proof fn lemma_permits_is_reflexive(state: TransactionState)
    ensures
        state.allows(state),
{
}

/// No state other than `Preparing` itself leads back to `Preparing`.
pub proof fn lemma_preparing_is_never_reentered(state: TransactionState)
    ensures
        state.allows(TransactionState::Preparing) ==> state == TransactionState::Preparing,
{
}

/// Every non-terminal state permits a step to some terminal state or towards one:
/// it can always reach `Failed` or `Recovered` in one step.
pub proof fn lemma_nonterminal_state_can_terminate(state: TransactionState)
    requires
        !state.is_terminal(),
    ensures
        state.allows(TransactionState::Failed) || state.allows(TransactionState::Recovered),
{
}

} // verus!

verus! {

#[derive(Debug, Clone, PartialEq, Eq)]
pub struct Account {
    pub account_id: String,
    pub display_name: String,
    pub masked_email: Option<String>,
    pub plan_type: Option<String>,
    pub login_status: String,
    pub credential_hash: String,
    pub occupied: bool,
    pub created_at: i64,
    pub updated_at: i64,
}

#[derive(Debug, Clone, PartialEq, Eq)]
pub struct Project {
    pub project_id: String,
    pub name: String,
    pub canonical_windows_path: Option<String>,
    pub canonical_wsl_path: String,
    pub runtime_relative_path: String,
    pub tmux_session_name: String,
    pub active: bool,
    pub archived_at: Option<i64>,
    pub created_at: i64,
    pub updated_at: i64,
}

#[derive(Debug, Clone, PartialEq, Eq)]
pub struct RecoveryIncident {
    pub incident_id: String,
    pub transaction_id: String,
    pub project_id: String,
    pub account_id: String,
    pub kind: String,
    pub status: String,
    pub evidence_relative_path: Option<String>,
    pub resolution_action: Option<String>,
    pub resolution_summary: Option<String>,
    pub created_at: i64,
    pub updated_at: i64,
    pub resolved_at: Option<i64>,
}

#[derive(Debug, Clone, PartialEq, Eq)]
pub struct RecoveryAttempt {
    pub attempt_id: String,
    pub incident_id: String,
    pub transaction_id: String,
    pub action: String,
    pub classification: String,
    pub result_state: String,
    pub error_code: Option<String>,
    pub created_at: i64,
    pub completed_at: Option<i64>,
}

#[derive(Debug, Clone, PartialEq, Eq)]
pub struct ThreadIndex {
    pub thread_id: String,
    pub project_id: String,
    pub source_relative_path: String,
    pub source_modified_at: i64,
    pub codex_version: Option<String>,
    pub status: String,
    pub indexed_at: i64,
}

#[derive(Debug, Clone, PartialEq, Eq)]
pub struct ProcessIdentity {
    pub pid: u32,
    pub boot_id: String,
    pub start_ticks: u64,
    pub identity: String,
}

#[derive(Debug, Clone, PartialEq, Eq)]
pub struct LaunchTransaction {
    pub transaction_id: String,
    pub launch_id: String,
    pub project_id: String,
    pub account_id: String,
    pub state: TransactionState,
    pub runner_pid: Option<u32>,
    pub codex_pid: Option<u32>,
    pub boot_id: Option<String>,
    pub runner_start_ticks: Option<u64>,
    pub codex_start_ticks: Option<u64>,
    pub runner_identity: Option<String>,
    pub codex_identity: Option<String>,
    pub vault_hash_before_checkout: Option<String>,
    pub runtime_hash_at_checkout: Option<String>,
    pub runtime_hash_at_recovery: Option<String>,
    pub vault_hash_at_recovery: Option<String>,
    pub credential_backup_reference: Option<String>,
    pub last_error_code: Option<String>,
    pub last_error_message_redacted: Option<String>,
    pub recovery_attempts: u32,
    pub created_at: i64,
    pub updated_at: i64,
}

#[derive(Debug, Clone, PartialEq, Eq)]
pub struct LaunchView {
    pub launch_id: String,
    pub transaction_id: String,
    pub project_id: String,
    pub account_id: String,
    pub state: TransactionState,
    pub outcome: Option<String>,
    pub started_at: i64,
    pub exited_at: Option<i64>,
}

#[derive(Debug, Clone, PartialEq, Eq)]
pub struct RecoveryResult {
    pub transaction_id: String,
    pub previous_state: TransactionState,
    pub state: TransactionState,
    pub classification: String,
    pub changed: bool,
    pub incident_id: Option<String>,
}

#[derive(Debug, Clone, PartialEq, Eq)]
pub struct Terminal {
    pub terminal_id: String,
    pub project_id: String,
    pub kind: String,
    pub display_name: String,
    pub tmux_window_identity: String,
    pub lifecycle_status: String,
    pub created_at: i64,
    pub closed_at: Option<i64>,
}

#[derive(Debug, Clone, PartialEq)]
pub struct UsageSnapshot {
    pub usage_snapshot_id: String,
    pub account_id: String,
    pub codex_version: String,
    pub capability_fingerprint: String,
    pub account_type: Option<String>,
    pub plan_type: Option<String>,
    pub login_status: String,
    pub windows: Vec<UsageWindow>,
    pub lifetime_tokens: Option<u64>,
    pub reset_credit_available: Option<u64>,
    pub captured_at: i64,
    pub expires_at: i64,
    pub error_code: Option<String>,
}

#[derive(Debug, Clone, Copy, PartialEq)]
pub struct UsageWindow {
    pub duration_minutes: Option<u64>,
    pub used_percent: Option<u64>,
    pub resets_at: Option<i64>,
}

#[derive(Debug, Clone, PartialEq)]
pub struct UsageRefreshResult {
    pub account_id: String,
    pub snapshot: Option<UsageSnapshot>,
    pub error_code: Option<String>,
}

#[derive(Debug, Clone, PartialEq, Eq)]
pub struct ProjectSettings {
    pub project_id: String,
    pub runtime: String,
    pub default_account_id: Option<String>,
    pub default_model: String,
    pub reasoning: String,
    pub updated_at: i64,
}

#[derive(Debug, Clone, PartialEq, Eq)]
pub struct TerminalPresetTemplate {
    pub name: String,
    pub kind: String,
}

#[derive(Debug, Clone, PartialEq, Eq)]
pub struct CommandPresetTemplate {
    pub name: String,
    pub description: String,
    pub terminal_kind: String,
    pub working_directory: String,
    pub command: String,
}

#[derive(Debug, Clone, PartialEq, Eq)]
pub struct ProjectTemplate {
    pub template_id: String,
    pub name: String,
    pub description: String,
    pub default_model: String,
    pub reasoning: String,
    pub terminal_presets: Vec<TerminalPresetTemplate>,
    pub command_presets: Vec<CommandPresetTemplate>,
    pub created_at: i64,
    pub updated_at: i64,
}

#[derive(Debug, Clone, PartialEq, Eq)]
pub struct CommandPreset {
    pub preset_id: String,
    pub project_id: String,
    pub name: String,
    pub description: String,
    pub terminal_kind: String,
    pub working_directory: String,
    pub command: String,
    pub created_at: i64,
    pub updated_at: i64,
}

#[derive(Debug, Clone, PartialEq, Eq)]
pub struct InputHistory {
    pub history_id: String,
    pub project_id: String,
    pub terminal_id: Option<String>,
    pub thread_id: Option<String>,
    pub kind: String,
    pub input_text: String,
    pub created_at: i64,
}

#[derive(Debug, Clone, PartialEq, Eq)]
pub struct WorkspaceEntry {
    pub relative_path: String,
    pub name: String,
    pub kind: String,
    pub size: u64,
    pub modified_at: Option<i64>,
}

#[derive(Debug, Clone, PartialEq, Eq)]
pub struct WorkspacePreview {
    pub relative_path: String,
    pub content: String,
    pub line_count: usize,
    pub truncated: bool,
    pub modified_at: Option<i64>,
}

#[derive(Debug, Clone, PartialEq, Eq)]
pub struct WorkspaceLocation {
    pub relative_path: String,
    pub canonical_wsl_path: String,
    pub canonical_windows_path: Option<String>,
}

#[derive(Debug, Clone, PartialEq, Eq)]
pub struct CapabilityProbe {
    pub codex_version: String,
    pub schema_fingerprint: String,
    pub account_read: bool,
    pub rate_limits_read: bool,
    pub token_usage_read: bool,
    pub reset_credits: bool,
}

/// A receipt for an exported diagnostics bundle.
#[derive(Debug, Clone, PartialEq, Eq)]
pub struct DiagnosticReceipt {
    pub export_id: String,
    pub relative_path: String,
    pub created_at: i64,
}

} // verus!
