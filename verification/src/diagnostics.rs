//! Diagnostics: export receipts, and the sanitising of what enters the
//! daemon's event log.

use vstd::prelude::*;
use vstd::string::*;

use crate::json::{JsonNumber, JsonValue};
use crate::layout::Layout;
use crate::model::DiagnosticReceipt;
use crate::paths::{join, join_path};
use crate::storage::SCHEMA_VERSION;

verus! {

/// The event log is cut back once it grows past this many bytes...
pub const MAX_EVENT_LOG_BYTES: usize = 2097152;

/// ...to its newest this many bytes.
pub const KEPT_EVENT_LOG_BYTES: usize = 1048576;

/// A character an event atom may hold: an ASCII letter or digit, `_`, `-`, `.`.
pub open spec fn is_atom_char(c: char) -> bool {
    ('a' <= c <= 'z') || ('A' <= c <= 'Z') || ('0' <= c <= '9') || c == '_' || c == '-' || c == '.'
}

/// The atom characters of `s`, in order.
pub open spec fn atom_chars(s: Seq<char>) -> Seq<char>
    decreases s.len(),
{
    if s.len() == 0 {
        Seq::<char>::empty()
    } else if is_atom_char(s.last()) {
        atom_chars(s.drop_last()).push(s.last())
    } else {
        atom_chars(s.drop_last())
    }
}

/// An event type or resource id as it is logged: only atom characters, at
/// most 128 of them.
pub open spec fn safe_atom_of(s: Seq<char>) -> Seq<char> {
    let a = atom_chars(s);
    if a.len() <= 128 {
        a
    } else {
        a.take(128)
    }
}

pub fn safe_atom(value: &str) -> (r: String)
    ensures
        r@ == safe_atom_of(value@),
{
    let n = value.unicode_len();
    let mut out = String::new();
    let mut kept: usize = 0;
    let mut i: usize = 0;
    while i < n
        invariant
            n == value@.len(),
            i <= n,
            kept <= 128,
            out@ == safe_atom_of(value@.take(i as int)),
            kept == out@.len(),
        decreases n - i,
    {
        let c = value.get_char(i);
        proof {
            assert(value@.take(i + 1).drop_last() =~= value@.take(i as int));
            assert(value@.take(i + 1).last() == c);
            let before = atom_chars(value@.take(i as int));
            if before.len() >= 128 {
                assert(before.push(c).take(128) =~= before.take(128));
            }
        }
        let allowed = ('a' <= c && c <= 'z') || ('A' <= c && c <= 'Z') || ('0' <= c && c <= '9')
            || c == '_' || c == '-' || c == '.';
        if allowed && kept < 128 {
            out.push(c);
            kept = kept + 1;
            proof {
                assert(out@ =~= safe_atom_of(value@.take(i + 1)));
            }
        }
        i = i + 1;
    }
    proof {
        assert(value@.take(n as int) =~= value@);
    }
    out
}

/// The receipt of an export: the export file lives in the diagnostics
/// directory under the export's identifier.
pub fn diagnostic_receipt(export_id: &str, created_at: i64) -> (r: DiagnosticReceipt)
    ensures
        r.export_id@ == export_id@,
        r.relative_path@ == "diagnostics/"@ + export_id@ + ".json"@,
        r.created_at == created_at,
{
    let mut relative = String::from_str("diagnostics/");
    relative.append(export_id);
    relative.append(".json");
    DiagnosticReceipt { export_id: String::from_str(export_id), relative_path: relative, created_at }
}

/// Where an exported receipt's file is, under the runtime root.
pub fn receipt_path(layout: &Layout, receipt: &DiagnosticReceipt) -> (r: String)
    ensures
        r@ == join(layout@, receipt.relative_path@),
{
    join_path(layout.root(), receipt.relative_path.as_str())
}

/// The event log after an append: past the limit only its newest bytes stay.
pub fn trim_event_log(log: Vec<u8>) -> (r: Vec<u8>)
    ensures
        log@.len() <= MAX_EVENT_LOG_BYTES ==> r@ == log@,
        log@.len() > MAX_EVENT_LOG_BYTES ==> r@ == log@.skip(log@.len() - KEPT_EVENT_LOG_BYTES),
{
    if log.len() > MAX_EVENT_LOG_BYTES {
        let start = log.len() - KEPT_EVENT_LOG_BYTES;
        crate::gateway::slice_suffix(log.as_slice(), start)
    } else {
        log
    }
}


/// An integer as a JSON number: read as unsigned and as signed wherever it
/// fits either.
pub open spec fn is_json_int(v: JsonValue, n: int) -> bool {
    v matches JsonValue::Number(x) && x.unsigned == (if 0 <= n <= u64::MAX {
        Some(n as u64)
    } else {
        None
    }) && x.signed == (if i64::MIN <= n <= i64::MAX {
        Some(n as i64)
    } else {
        None
    })
}

/// A JSON string holding `s`.
pub open spec fn is_json_text(v: JsonValue, s: Seq<char>) -> bool {
    v matches JsonValue::Text(t) && t@ == s
}

/// A JSON object whose members have exactly these keys, in this order (so
/// each key names the member at its position).
pub open spec fn has_keys(v: JsonValue, keys: Seq<Seq<char>>) -> bool {
    v matches JsonValue::Object(members) && members@.len() == keys.len() && forall|i: int|
        0 <= i < keys.len() ==> (#[trigger] members@[i]).0@ == keys[i]
}

/// The value of object `v`'s member at position `i`.
pub open spec fn field(v: JsonValue, i: int) -> JsonValue {
    v->Object_0@[i].1
}

fn json_unsigned(n: u64) -> (r: JsonValue)
    ensures
        is_json_int(r, n as int),
{
    let signed = if n <= 9223372036854775807u64 {
        Some(n as i64)
    } else {
        None
    };
    JsonValue::Number(JsonNumber { unsigned: Some(n), signed })
}

fn json_signed(n: i64) -> (r: JsonValue)
    ensures
        is_json_int(r, n as int),
{
    let unsigned = if n >= 0 {
        Some(n as u64)
    } else {
        None
    };
    JsonValue::Number(JsonNumber { unsigned, signed: Some(n) })
}

fn json_text(s: &str) -> (r: JsonValue)
    ensures
        is_json_text(r, s@),
{
    JsonValue::Text(String::from_str(s))
}

/// A diagnostics export: the record counts (accounts, projects, launches,
/// recovery incidents), when it was made, the version, the database's schema
/// version and integrity verdict, and every privacy flag false; nothing else
/// enters it.
pub open spec fn is_export_document(
    v: JsonValue,
    created_at: i64,
    version: Seq<char>,
    database_schema_version: u32,
    integrity: Seq<char>,
    counts: (u64, u64, u64, u64),
) -> bool {
    let counted = field(v, 6);
    let privacy = field(v, 7);
    &&& has_keys(
        v,
        seq![
            "schema"@,
            "created_at"@,
            "muxlane_version"@,
            "database_schema_version"@,
            "expected_schema_version"@,
            "database_integrity"@,
            "counts"@,
            "privacy"@,
        ],
    )
    &&& is_json_int(field(v, 0), 1)
    &&& is_json_int(field(v, 1), created_at as int)
    &&& is_json_text(field(v, 2), version)
    &&& is_json_int(field(v, 3), database_schema_version as int)
    &&& is_json_int(field(v, 4), SCHEMA_VERSION as int)
    &&& is_json_text(field(v, 5), integrity)
    &&& has_keys(counted, seq!["accounts"@, "projects"@, "launches"@, "recovery_incidents"@])
    &&& is_json_int(field(counted, 0), counts.0 as int)
    &&& is_json_int(field(counted, 1), counts.1 as int)
    &&& is_json_int(field(counted, 2), counts.2 as int)
    &&& is_json_int(field(counted, 3), counts.3 as int)
    &&& has_keys(
        privacy,
        seq![
            "credentials_included"@,
            "prompts_included"@,
            "terminal_content_included"@,
            "source_paths_included"@,
            "telemetry_uploaded"@,
        ],
    )
    &&& forall|i: int|
        0 <= i < 5 ==> (#[trigger] privacy->Object_0@[i]).1 == JsonValue::Bool(false)
}

/// The diagnostics export, as a JSON document.
pub fn export_document(
    created_at: i64,
    version: &str,
    database_schema_version: u32,
    integrity: &str,
    counts: (u64, u64, u64, u64),
) -> (r: JsonValue)
    ensures
        is_export_document(r, created_at, version@, database_schema_version, integrity@, counts),
{
    let mut counted: Vec<(String, JsonValue)> = Vec::new();
    counted.push((String::from_str("accounts"), json_unsigned(counts.0)));
    counted.push((String::from_str("projects"), json_unsigned(counts.1)));
    counted.push((String::from_str("launches"), json_unsigned(counts.2)));
    counted.push((String::from_str("recovery_incidents"), json_unsigned(counts.3)));
    let mut privacy: Vec<(String, JsonValue)> = Vec::new();
    privacy.push((String::from_str("credentials_included"), JsonValue::Bool(false)));
    privacy.push((String::from_str("prompts_included"), JsonValue::Bool(false)));
    privacy.push((String::from_str("terminal_content_included"), JsonValue::Bool(false)));
    privacy.push((String::from_str("source_paths_included"), JsonValue::Bool(false)));
    privacy.push((String::from_str("telemetry_uploaded"), JsonValue::Bool(false)));
    let mut out: Vec<(String, JsonValue)> = Vec::new();
    out.push((String::from_str("schema"), json_unsigned(1)));
    out.push((String::from_str("created_at"), json_signed(created_at)));
    out.push((String::from_str("muxlane_version"), json_text(version)));
    out.push((String::from_str("database_schema_version"), json_unsigned(database_schema_version as u64)));
    out.push((String::from_str("expected_schema_version"), json_unsigned(SCHEMA_VERSION as u64)));
    out.push((String::from_str("database_integrity"), json_text(integrity)));
    out.push((String::from_str("counts"), JsonValue::Object(counted)));
    out.push((String::from_str("privacy"), JsonValue::Object(privacy)));
    proof {
        reveal_strlit("schema");
        reveal_strlit("created_at");
        reveal_strlit("muxlane_version");
        reveal_strlit("database_schema_version");
        reveal_strlit("expected_schema_version");
        reveal_strlit("database_integrity");
        reveal_strlit("counts");
        reveal_strlit("privacy");
        reveal_strlit("accounts");
        reveal_strlit("projects");
        reveal_strlit("launches");
        reveal_strlit("recovery_incidents");
        reveal_strlit("credentials_included");
        reveal_strlit("prompts_included");
        reveal_strlit("terminal_content_included");
        reveal_strlit("source_paths_included");
        reveal_strlit("telemetry_uploaded");
    }
    JsonValue::Object(out)
}

/// One record of the event log: its identifier, its type and resource
/// reduced to safe atoms, and when it happened.
pub open spec fn is_event_record(
    v: JsonValue,
    created_at: i64,
    event_id: Seq<char>,
    event_type: Seq<char>,
    resource_id: Option<Seq<char>>,
) -> bool {
    &&& has_keys(v, seq!["event_id"@, "event_type"@, "resource_id"@, "created_at"@])
    &&& is_json_text(field(v, 0), event_id)
    &&& is_json_text(field(v, 1), safe_atom_of(event_type))
    &&& match resource_id {
        Some(r) => is_json_text(field(v, 2), safe_atom_of(r)),
        None => field(v, 2) == JsonValue::Null,
    }
    &&& is_json_int(field(v, 3), created_at as int)
}

/// The event log's record of an event.
pub fn event_record(
    created_at: i64,
    event_id: &str,
    event_type: &str,
    resource_id: Option<&str>,
) -> (r: JsonValue)
    ensures
        is_event_record(
            r,
            created_at,
            event_id@,
            event_type@,
            match resource_id {
                Some(v) => Some(v@),
                None => None,
            },
        ),
{
    let kind = safe_atom(event_type);
    let resource = match resource_id {
        Some(value) => JsonValue::Text(safe_atom(value)),
        None => JsonValue::Null,
    };
    let mut out: Vec<(String, JsonValue)> = Vec::new();
    out.push((String::from_str("event_id"), json_text(event_id)));
    out.push((String::from_str("event_type"), JsonValue::Text(kind)));
    out.push((String::from_str("resource_id"), resource));
    out.push((String::from_str("created_at"), json_signed(created_at)));
    proof {
        reveal_strlit("event_id");
        reveal_strlit("event_type");
        reveal_strlit("resource_id");
        reveal_strlit("created_at");
    }
    JsonValue::Object(out)
}

/// Whatever it is given, a logged atom holds at most 128 characters, each a
/// letter, digit, `_`, `-` or `.`.
pub proof fn lemma_safe_atom_is_safe(s: Seq<char>)
    ensures
        safe_atom_of(s).len() <= 128,
        forall|i: int| 0 <= i < safe_atom_of(s).len() ==> is_atom_char(#[trigger] safe_atom_of(s)[i]),
{
    lemma_atom_chars_are_atoms(s);
    let a = atom_chars(s);
    if a.len() > 128 {
        assert forall|i: int| 0 <= i < 128 implies is_atom_char(#[trigger] a.take(128)[i]) by {
            assert(a.take(128)[i] == a[i]);
        }
    }
}

proof fn lemma_atom_chars_are_atoms(s: Seq<char>)
    ensures
        forall|i: int| 0 <= i < atom_chars(s).len() ==> is_atom_char(#[trigger] atom_chars(s)[i]),
    decreases s.len(),
{
    if s.len() > 0 {
        let d = s.drop_last();
        lemma_atom_chars_are_atoms(d);
        if is_atom_char(s.last()) {
            assert forall|i: int| 0 <= i < atom_chars(s).len() implies is_atom_char(#[trigger] atom_chars(s)[i]) by {
                if i < atom_chars(d).len() {
                    assert(atom_chars(s)[i] == atom_chars(d)[i]);
                }
            }
        }
    }
}

} // verus!
