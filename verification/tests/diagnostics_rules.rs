use muxlane_core::diagnostics::{
    diagnostic_receipt, event_record, export_document, receipt_path, safe_atom, trim_event_log,
    KEPT_EVENT_LOG_BYTES, MAX_EVENT_LOG_BYTES,
};
use muxlane_core::json::JsonValue;
use muxlane_core::layout::Layout;
use muxlane_core::storage::{Storage, SCHEMA_VERSION};
use serde_json::Value;

fn to_serde(value: &JsonValue) -> Value {
    match value {
        JsonValue::Null => Value::Null,
        JsonValue::Bool(flag) => Value::Bool(*flag),
        JsonValue::Number(number) => match (number.unsigned, number.signed) {
            (Some(n), _) => Value::from(n),
            (None, Some(n)) => Value::from(n),
            (None, None) => Value::Null,
        },
        JsonValue::Text(text) => Value::String(text.clone()),
        JsonValue::Array(values) => Value::Array(values.iter().map(to_serde).collect()),
        JsonValue::Object(members) => {
            Value::Object(members.iter().map(|(key, child)| (key.clone(), to_serde(child))).collect())
        }
    }
}

fn keys(value: &JsonValue) -> Vec<String> {
    match value {
        JsonValue::Object(members) => members.iter().map(|(key, _)| key.clone()).collect(),
        _ => Vec::new(),
    }
}

fn object(members: Vec<(&str, Value)>) -> Value {
    let mut map = serde_json::Map::new();
    for (key, value) in members {
        map.insert(key.to_owned(), value);
    }
    Value::Object(map)
}

fn fresh_root() -> String {
    let root = format!("/tmp/muxlane-diag-{}", uuid::Uuid::new_v4().simple());
    nix::unistd::mkdir(root.as_str(), nix::sys::stat::Mode::S_IRWXU).unwrap();
    root
}

#[test]
fn diagnostic_export_excludes_secrets_paths_prompts_and_terminal_content() {
    let root = fresh_root();
    let mut storage = Storage::open(Layout::initialize(&root).unwrap()).unwrap();
    let receipt = diagnostic_receipt("diagnostics_0123", 77);
    let document = export_document(
        receipt.created_at,
        muxlane_core::VERSION,
        storage.schema_version().unwrap(),
        &storage.integrity().unwrap(),
        storage.counts().unwrap(),
    );
    let text = serde_json::to_string_pretty(&to_serde(&document)).unwrap();
    assert!(text.contains("\"credentials_included\": false"));
    assert!(!text.contains(root.as_str()));
    assert!(!text.contains("Authorization"));
    assert!(!text.contains("auth.json"));
    assert_eq!(receipt_path(storage.layout(), &receipt), format!("{root}/diagnostics/diagnostics_0123.json"));
}

#[test]
fn export_document_holds_its_fields_and_nothing_else() {
    let document = export_document(-5, "1.2\"x", 4, "ok", (3, 2, 1, 0));
    assert_eq!(
        keys(&document),
        vec![
            "schema",
            "created_at",
            "muxlane_version",
            "database_schema_version",
            "expected_schema_version",
            "database_integrity",
            "counts",
            "privacy"
        ]
    );
    let value = to_serde(&document);
    let expected = object(vec![
        ("schema", Value::from(1)),
        ("created_at", Value::from(-5)),
        ("muxlane_version", Value::from("1.2\"x")),
        ("database_schema_version", Value::from(4)),
        ("expected_schema_version", Value::from(SCHEMA_VERSION)),
        ("database_integrity", Value::from("ok")),
        (
            "counts",
            object(vec![
                ("accounts", Value::from(3)),
                ("projects", Value::from(2)),
                ("launches", Value::from(1)),
                ("recovery_incidents", Value::from(0)),
            ]),
        ),
        (
            "privacy",
            object(vec![
                ("credentials_included", Value::from(false)),
                ("prompts_included", Value::from(false)),
                ("terminal_content_included", Value::from(false)),
                ("source_paths_included", Value::from(false)),
                ("telemetry_uploaded", Value::from(false)),
            ]),
        ),
    ]);
    assert_eq!(value, expected);
    assert_eq!(value["counts"]["projects"], Value::from(2));
    let wide = to_serde(&export_document(i64::MIN, "v", 0, "ok", (u64::MAX, 0, 0, 0)));
    assert_eq!(wide["created_at"], Value::from(i64::MIN));
    assert_eq!(wide["counts"]["accounts"], Value::from(u64::MAX));
}

#[test]
fn event_records_hold_only_safe_atoms() {
    let record = event_record(12, "event_ab", "daemon started!", Some("../auth.json"));
    assert_eq!(keys(&record), vec!["event_id", "event_type", "resource_id", "created_at"]);
    let expected = object(vec![
        ("event_id", Value::from("event_ab")),
        ("event_type", Value::from("daemonstarted")),
        ("resource_id", Value::from("..auth.json")),
        ("created_at", Value::from(12)),
    ]);
    assert_eq!(to_serde(&record), expected);
    assert_eq!(
        serde_json::to_string(&to_serde(&event_record(-1, "e", "x", None))).unwrap(),
        r#"{"created_at":-1,"event_id":"e","event_type":"x","resource_id":null}"#
    );
    assert_eq!(safe_atom("a b/c\"d"), "abcd");
    assert_eq!(safe_atom(&"z".repeat(300)).len(), 128);
}

#[test]
fn the_event_log_keeps_its_newest_bytes() {
    let short = vec![1_u8; 10];
    assert_eq!(trim_event_log(short.clone()), short);
    let mut long = vec![0_u8; MAX_EVENT_LOG_BYTES];
    long.push(9);
    let trimmed = trim_event_log(long);
    assert_eq!(trimmed.len(), KEPT_EVENT_LOG_BYTES);
    assert_eq!(trimmed.last(), Some(&9));
}
