use muxlane_core::layout::{validate_id, Layout};
use muxlane_core::paths::{join_path, last_component_of, split_pieces};

#[test]
fn runtime_root_rejects_relative_mnt_and_parent_paths() {
    assert_eq!(Layout::initialize("/mnt/c/muxlane").unwrap_err().code, "PATH_REJECTED");
    assert_eq!(Layout::initialize("relative/root").unwrap_err().code, "PATH_REJECTED");
    assert_eq!(Layout::initialize("/").unwrap_err().code, "PATH_REJECTED");
    assert_eq!(Layout::initialize("/home/u/../../mnt").unwrap_err().code, "PATH_REJECTED");
    assert!(Layout::initialize("/home/u/.muxlane").is_ok());
}

#[test]
fn layout_paths_hang_off_the_root() {
    let layout = Layout::initialize("/srv/muxlane").unwrap();
    assert_eq!(layout.root(), "/srv/muxlane");
    assert_eq!(layout.database(), "/srv/muxlane/muxlane.db");
    assert_eq!(layout.vault_auth("account-1").unwrap(), "/srv/muxlane/accounts/account-1/auth.json");
    assert_eq!(layout.codex_home("project_1").unwrap(), "/srv/muxlane/projects/project_1/codex-home");
    assert_eq!(layout.account_lock("account-1").unwrap(), "/srv/muxlane/locks/accounts/account-1.lock");
    assert_eq!(layout.socket(), "/srv/muxlane/run/muxlaned.sock");
    assert_eq!(layout.vault_auth("../x").unwrap_err().code, "INVALID_REQUEST");
}

#[test]
fn identifiers_are_short_lowercase_words() {
    assert!(validate_id("account_1-a").is_ok());
    assert!(validate_id("Account").is_err());
    assert!(validate_id("").is_err());
    assert!(validate_id(&"a".repeat(96)).is_ok());
    assert!(validate_id(&"a".repeat(97)).is_err());
}

#[test]
fn paths_split_into_pieces_and_components() {
    assert_eq!(join_path("/a", "b"), "/a/b");
    assert_eq!(join_path("/a/", "b"), "/a/b");
    assert_eq!(join_path("/a", "/b"), "/b");
    assert_eq!(split_pieces("a//b/"), ["a", "", "b", ""]);
    assert_eq!(last_component_of("a/b/./").as_deref(), Some("b"));
    assert_eq!(last_component_of("./"), None);
}

#[test]
fn different_accounts_never_share_a_vault_file() {
    let layout = Layout::initialize("/srv/muxlane").unwrap();
    let first = layout.vault_auth("account_1").unwrap();
    let second = layout.vault_auth("account_2").unwrap();
    assert_ne!(first, second);
    assert_eq!(first, "/srv/muxlane/accounts/account_1/auth.json");
    assert_eq!(second, "/srv/muxlane/accounts/account_2/auth.json");
}

#[test]
fn account_and_project_locks_live_apart() {
    let layout = Layout::initialize("/srv/muxlane").unwrap();
    assert_ne!(layout.account_lock("shared").unwrap(), layout.project_lock("shared").unwrap());
    assert_ne!(layout.account_lock("a").unwrap(), layout.account_lock("b").unwrap());
    assert_ne!(layout.project_lock("a").unwrap(), layout.project_lock("b").unwrap());
    assert_eq!(layout.project_lock("shared").unwrap(), "/srv/muxlane/locks/projects/shared.lock");
    assert_eq!(layout.project_lock("Shared").unwrap_err().code, "INVALID_REQUEST");
}
