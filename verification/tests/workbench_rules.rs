use muxlane_core::model::CommandPresetTemplate;
use muxlane_core::workbench::{
    default_settings, history_limit, like_pattern, looks_sensitive, validate_command_template,
    validate_model, validate_reasoning, validate_relative_path, validate_terminal_kind,
    validate_text,
};

#[test]
fn models_reasoning_and_kinds_are_closed_sets() {
    assert!(validate_model("gpt-5.6-sol").is_ok());
    assert_eq!(validate_model("gpt 5").unwrap_err().code, "INVALID_REQUEST");
    assert!(validate_model(&"m".repeat(80)).is_ok());
    assert!(validate_model(&"m".repeat(81)).is_err());
    for value in ["low", "medium", "high", "xhigh"] {
        assert!(validate_reasoning(value).is_ok());
    }
    assert!(validate_reasoning("extreme").is_err());
    for value in ["codex", "shell", "auxiliary"] {
        assert!(validate_terminal_kind(value).is_ok());
    }
    assert!(validate_terminal_kind("Shell").is_err());
}

#[test]
fn working_directories_stay_in_the_project() {
    assert!(validate_relative_path("").is_ok());
    assert!(validate_relative_path("src/bin").is_ok());
    assert_eq!(validate_relative_path("../outside").unwrap_err().code, "PATH_REJECTED");
    assert_eq!(validate_relative_path("/etc").unwrap_err().code, "PATH_REJECTED");
    assert_eq!(validate_relative_path("a/../../b").unwrap_err().code, "PATH_REJECTED");
}

#[test]
fn stored_text_is_bounded_and_free_of_control_characters() {
    assert!(validate_text("Run tests", 120, false, "name").is_ok());
    assert!(validate_text("line one\n\tline two", 120, false, "name").is_ok());
    let blank = validate_text("   ", 120, false, "template name").unwrap_err();
    assert_eq!(blank.code, "INVALID_REQUEST");
    assert_eq!(blank.message, "template name is invalid");
    assert!(validate_text("", 120, true, "description").is_ok());
    assert!(validate_text("bell\u{7}", 120, false, "name").is_err());
    assert!(validate_text("nul\0", 120, false, "name").is_err());
    assert!(validate_text("中文", 5, false, "name").is_err());
    assert!(validate_text("中文", 6, false, "name").is_ok());
}

#[test]
fn credential_like_input_is_recognised() {
    assert!(looks_sensitive("Authorization: Bearer secret"));
    assert!(looks_sensitive("export API_KEY=1"));
    assert!(looks_sensitive(&format!("token {}", "a".repeat(80))));
    assert!(!looks_sensitive(&format!("token {}", "a".repeat(79))));
    assert!(!looks_sensitive("cargo test"));
    assert!(!looks_sensitive("review this module"));
}

#[test]
fn command_templates_are_checked_field_by_field() {
    let preset = CommandPresetTemplate {
        name: "Test".to_owned(),
        description: "Run tests".to_owned(),
        terminal_kind: "shell".to_owned(),
        working_directory: "".to_owned(),
        command: "cargo test".to_owned(),
    };
    assert!(validate_command_template(&preset).is_ok());
    let escaping = CommandPresetTemplate { working_directory: "../x".to_owned(), ..preset.clone() };
    assert_eq!(validate_command_template(&escaping).unwrap_err().code, "PATH_REJECTED");
    let unknown = CommandPresetTemplate { terminal_kind: "tty".to_owned(), ..preset };
    assert_eq!(validate_command_template(&unknown).unwrap_err().code, "INVALID_REQUEST");
}

#[test]
fn history_searches_escape_like_wildcards_and_bound_results() {
    assert_eq!(like_pattern("cargo"), "%cargo%");
    assert_eq!(like_pattern("100%_done"), "%100\\%\\_done%");
    assert_eq!(history_limit(0), 1);
    assert_eq!(history_limit(10), 10);
    assert_eq!(history_limit(500), 200);
    let settings = default_settings("project_1");
    assert_eq!(settings.runtime, "codex");
    assert_eq!(settings.default_model, "gpt-5.6-sol");
    assert_eq!(settings.reasoning, "high");
    assert_eq!(settings.updated_at, 0);
}
