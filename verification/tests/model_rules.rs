use muxlane_core::model::TransactionState;
use muxlane_core::model::TransactionState::{
    AuthCommitted, CheckedOut, Cleaned, CodexExited, CommittingAuth, CredentialConflict, Failed,
    Finished, Preparing, Recovered, Running,
};
use muxlane_core::{CRATE_IDENTIFIER, VERSION};

#[test]
fn exposes_stable_build_metadata() {
    assert_eq!(CRATE_IDENTIFIER, "muxlane-core");
    assert_eq!(VERSION, "0.1.0");
}

#[test]
fn terminal_states_are_immutable() {
    for state in [Finished, Recovered, CredentialConflict, Failed] {
        assert!(state.permits(state));
        assert!(!state.permits(Preparing));
    }
}

#[test]
fn rejects_shortcut_transitions() {
    assert!(!Running.permits(Finished));
    assert!(!CheckedOut.permits(Finished));
    assert!(!CredentialConflict.permits(AuthCommitted));
    assert!(!Failed.permits(Recovered));
}

const ALL: [TransactionState; 11] = [
    Preparing,
    CheckedOut,
    Running,
    CodexExited,
    CommittingAuth,
    AuthCommitted,
    Cleaned,
    Finished,
    Recovered,
    CredentialConflict,
    Failed,
];

#[test]
fn state_names_round_trip() {
    for state in ALL {
        assert_eq!(TransactionState::parse(state.as_str()), Some(state));
    }
    assert_eq!(CheckedOut.as_str(), "checked_out");
    assert_eq!(TransactionState::parse("committing_auth"), Some(CommittingAuth));
    assert_eq!(TransactionState::parse("Running"), None);
    assert_eq!(TransactionState::parse(""), None);
}

#[test]
fn terminal_states_are_exactly_the_four_outcomes() {
    for state in ALL {
        let expected = matches!(state, Finished | Recovered | CredentialConflict | Failed);
        assert_eq!(state.terminal(), expected);
        if state.terminal() {
            for next in ALL {
                assert_eq!(state.permits(next), next == state);
            }
        }
    }
}

#[test]
fn the_launch_path_is_permitted_step_by_step() {
    let path = [Preparing, CheckedOut, Running, CodexExited, CommittingAuth, AuthCommitted, Cleaned, Finished];
    for pair in path.windows(2) {
        assert!(pair[0].permits(pair[1]));
    }
    for state in ALL {
        assert!(state.permits(state));
        if state != Preparing {
            assert!(!state.permits(Preparing));
        }
    }
}
