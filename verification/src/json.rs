//! JSON documents as the runtime reads them: a plain tree of values, the
//! member and key lookups the usage reader relies on, and the walk that
//! finds every reported usage window.

use vstd::prelude::*;
use vstd::string::*;

use crate::error::{CoreError, CoreResult};
use crate::model::UsageWindow;
use crate::text::str_eq;

verus! {

/// A JSON number as the runtime reads it: its value as an unsigned and as a
/// signed 64-bit integer, where it is one.
#[derive(Debug, Clone, Copy, PartialEq, Eq, Structural)]
pub struct JsonNumber {
    pub unsigned: Option<u64>,
    pub signed: Option<i64>,
}

/// A JSON value; an object keeps its members in their order.
#[derive(Debug)]
pub enum JsonValue {
    Null,
    Bool(bool),
    Number(JsonNumber),
    Text(String),
    Array(Vec<JsonValue>),
    Object(Vec<(String, JsonValue)>),
}

/// `Value::as_u64`.
pub open spec fn unsigned_of(v: JsonValue) -> Option<u64> {
    match v {
        JsonValue::Number(n) => n.unsigned,
        _ => None,
    }
}

/// `Value::as_i64`.
pub open spec fn signed_of(v: JsonValue) -> Option<i64> {
    match v {
        JsonValue::Number(n) => n.signed,
        _ => None,
    }
}

/// `Value::as_str`.
pub open spec fn text_of(v: JsonValue) -> Option<Seq<char>> {
    match v {
        JsonValue::Text(s) => Some(s@),
        _ => None,
    }
}

/// The value of the first member named `key` at or after position `k`.
pub open spec fn member_from(members: Seq<(String, JsonValue)>, key: Seq<char>, k: int) -> Option<
    JsonValue,
>
    decreases members.len() - k,
{
    if k < 0 || k >= members.len() {
        None
    } else if members[k].0@ == key {
        Some(members[k].1)
    } else {
        member_from(members, key, k + 1)
    }
}

/// `Value::get` with a key: the member of an object.
pub open spec fn member(v: JsonValue, key: Seq<char>) -> Option<JsonValue> {
    match v {
        JsonValue::Object(m) => member_from(m@, key, 0),
        _ => None,
    }
}

/// A lookup that may have found nothing, continued.
pub open spec fn member_of(v: Option<JsonValue>, key: Seq<char>) -> Option<JsonValue> {
    match v {
        Some(x) => member(x, key),
        None => None,
    }
}

pub open spec fn unsigned_in(v: Option<JsonValue>) -> Option<u64> {
    match v {
        Some(x) => unsigned_of(x),
        None => None,
    }
}

pub open spec fn signed_in(v: Option<JsonValue>) -> Option<i64> {
    match v {
        Some(x) => signed_of(x),
        None => None,
    }
}

pub open spec fn text_in(v: Option<JsonValue>) -> Option<Seq<char>> {
    match v {
        Some(x) => text_of(x),
        None => None,
    }
}

/// The member named `key` of an object, if it has one.
pub fn get_member<'a>(v: &'a JsonValue, key: &str) -> (r: Option<&'a JsonValue>)
    ensures
        match r {
            Some(x) => member(*v, key@) == Some(*x),
            None => member(*v, key@) is None,
        },
{
    match v {
        JsonValue::Object(members) => {
            let mut k: usize = 0;
            while k < members.len()
                invariant
                    k <= members@.len(),
                    *v == JsonValue::Object(*members),
                    member_from(members@, key@, 0) == member_from(members@, key@, k as int),
                decreases members@.len() - k,
            {
                if str_eq(members[k].0.as_str(), key) {
                    return Some(&members[k].1);
                }
                k = k + 1;
            }
            None
        },
        _ => None,
    }
}

/// `Value::as_u64` of what a lookup found.
pub fn unsigned_value(v: Option<&JsonValue>) -> (r: Option<u64>)
    ensures
        r == unsigned_in(
            match v {
                Some(x) => Some(*x),
                None => None,
            },
        ),
{
    match v {
        Some(JsonValue::Number(n)) => n.unsigned,
        _ => None,
    }
}

/// `Value::as_i64` of what a lookup found.
pub fn signed_value(v: Option<&JsonValue>) -> (r: Option<i64>)
    ensures
        r == signed_in(
            match v {
                Some(x) => Some(*x),
                None => None,
            },
        ),
{
    match v {
        Some(JsonValue::Number(n)) => n.signed,
        _ => None,
    }
}

/// `Value::as_str` of what a lookup found, owned.
pub fn text_value(v: Option<&JsonValue>) -> (r: Option<String>)
    ensures
        match r {
            Some(s) => text_in(
                match v {
                    Some(x) => Some(*x),
                    None => None,
                },
            ) == Some(s@),
            None => text_in(
                match v {
                    Some(x) => Some(*x),
                    None => None,
                },
            ) is None,
        },
{
    match v {
        Some(JsonValue::Text(s)) => Some(s.clone()),
        _ => None,
    }
}

/// The usage window an object reports, when it names both its used percent
/// and its duration.
pub open spec fn own_window(members: Seq<(String, JsonValue)>) -> Seq<UsageWindow> {
    if member_from(members, "usedPercent"@, 0) is Some && member_from(
        members,
        "windowDurationMins"@,
        0,
    ) is Some {
        seq![
            UsageWindow {
                duration_minutes: unsigned_in(member_from(members, "windowDurationMins"@, 0)),
                used_percent: unsigned_in(member_from(members, "usedPercent"@, 0)),
                resets_at: signed_in(member_from(members, "resetsAt"@, 0)),
            },
        ]
    } else {
        Seq::empty()
    }
}

/// Every usage window a value reports, depth first: an object's own window
/// before those of its members, in member order.
pub open spec fn windows_in(v: JsonValue) -> Seq<UsageWindow>
    decreases v, 1int, 0int,
{
    match v {
        JsonValue::Object(m) => own_window(m@) + windows_in_members(v, m@.len() as int),
        JsonValue::Array(a) => windows_in_elements(v, a@.len() as int),
        _ => Seq::empty(),
    }
}

/// The windows reported by the first `k` members of an object.
pub open spec fn windows_in_members(v: JsonValue, k: int) -> Seq<UsageWindow>
    decreases v, 0int, k,
{
    match v {
        JsonValue::Object(m) => if k <= 0 || k > m@.len() {
            Seq::empty()
        } else {
            proof {
                assert(decreases_to!(v => m@[k - 1].1));
            }
            windows_in_members(v, k - 1) + windows_in(m@[k - 1].1)
        },
        _ => Seq::empty(),
    }
}

/// The windows reported by the first `k` elements of an array.
pub open spec fn windows_in_elements(v: JsonValue, k: int) -> Seq<UsageWindow>
    decreases v, 0int, k,
{
    match v {
        JsonValue::Array(a) => if k <= 0 || k > a@.len() {
            Seq::empty()
        } else {
            proof {
                assert(decreases_to!(v => a@[k - 1]));
            }
            windows_in_elements(v, k - 1) + windows_in(a@[k - 1])
        },
        _ => Seq::empty(),
    }
}

/// Appends every usage window a value reports.
pub fn collect_windows(v: &JsonValue, out: &mut Vec<UsageWindow>)
    ensures
        final(out)@ == old(out)@ + windows_in(*v),
    decreases v,
{
    match v {
        JsonValue::Object(members) => {
            let used = get_member(v, "usedPercent");
            let duration = get_member(v, "windowDurationMins");
            let ghost start = out@;
            if used.is_some() && duration.is_some() {
                let resets = get_member(v, "resetsAt");
                out.push(
                    UsageWindow {
                        duration_minutes: unsigned_value(duration),
                        used_percent: unsigned_value(used),
                        resets_at: signed_value(resets),
                    },
                );
            }
            assert(out@ =~= start + own_window(members@));
            let ghost base = out@;
            let mut k: usize = 0;
            assert(base + windows_in_members(*v, 0) =~= base);
            while k < members.len()
                invariant
                    k <= members@.len(),
                    *v == JsonValue::Object(*members),
                    out@ == base + windows_in_members(*v, k as int),
                decreases members@.len() - k,
            {
                proof {
                    assert(decreases_to!(*v => members@[k as int].1));
                }
                let ghost before = out@;
                collect_windows(&members[k].1, out);
                assert(out@ =~= base + windows_in_members(*v, k + 1));
                k = k + 1;
            }
            assert(out@ =~= start + windows_in(*v));
        },
        JsonValue::Array(elements) => {
            let ghost base = out@;
            let mut k: usize = 0;
            assert(base + windows_in_elements(*v, 0) =~= base);
            while k < elements.len()
                invariant
                    k <= elements@.len(),
                    *v == JsonValue::Array(*elements),
                    out@ == base + windows_in_elements(*v, k as int),
                decreases elements@.len() - k,
            {
                proof {
                    assert(decreases_to!(*v => elements@[k as int]));
                }
                collect_windows(&elements[k], out);
                assert(out@ =~= base + windows_in_elements(*v, k + 1));
                k = k + 1;
            }
        },
        _ => {
            assert(out@ =~= old(out)@ + windows_in(*v));
        },
    }
}

/// The number of members or elements a value holds.
pub open spec fn nested_len(v: JsonValue) -> int {
    match v {
        JsonValue::Object(m) => m@.len() as int,
        JsonValue::Array(a) => a@.len() as int,
        _ => 0,
    }
}

/// The first value named `key` anywhere in a value: an object's own member
/// first, else what its members hold, in order; in an array, what its
/// elements hold, in order.
pub open spec fn key_in(v: JsonValue, key: Seq<char>) -> Option<JsonValue>
    decreases v, 1int, 0int,
{
    match v {
        JsonValue::Object(m) => match member_from(m@, key, 0) {
            Some(x) => Some(x),
            None => key_in_children(v, key, 0),
        },
        JsonValue::Array(_) => key_in_children(v, key, 0),
        _ => None,
    }
}

/// The first value named `key` under the members or elements of a value
/// from position `k` on.
pub open spec fn key_in_children(v: JsonValue, key: Seq<char>, k: int) -> Option<JsonValue>
    decreases v, 0int, nested_len(v) - k,
{
    match v {
        JsonValue::Object(m) => if k < 0 || k >= m@.len() {
            None
        } else {
            proof {
                assert(decreases_to!(v => m@[k].1));
            }
            match key_in(m@[k].1, key) {
                Some(x) => Some(x),
                None => key_in_children(v, key, k + 1),
            }
        },
        JsonValue::Array(a) => if k < 0 || k >= a@.len() {
            None
        } else {
            proof {
                assert(decreases_to!(v => a@[k]));
            }
            match key_in(a@[k], key) {
                Some(x) => Some(x),
                None => key_in_children(v, key, k + 1),
            }
        },
        _ => None,
    }
}

/// Finds the first value named `key` anywhere in a value.
pub fn find_key<'a>(v: &'a JsonValue, key: &str) -> (r: Option<&'a JsonValue>)
    ensures
        match r {
            Some(x) => key_in(*v, key@) == Some(*x),
            None => key_in(*v, key@) is None,
        },
    decreases v,
{
    match v {
        JsonValue::Object(members) => {
            if let Some(found) = get_member(v, key) {
                return Some(found);
            }
            let mut k: usize = 0;
            while k < members.len()
                invariant
                    k <= members@.len(),
                    *v == JsonValue::Object(*members),
                    member_from(members@, key@, 0) is None,
                    key_in_children(*v, key@, 0) == key_in_children(*v, key@, k as int),
                decreases members@.len() - k,
            {
                proof {
                    assert(decreases_to!(*v => members@[k as int].1));
                }
                if let Some(found) = find_key(&members[k].1, key) {
                    return Some(found);
                }
                k = k + 1;
            }
            None
        },
        JsonValue::Array(elements) => {
            let mut k: usize = 0;
            while k < elements.len()
                invariant
                    k <= elements@.len(),
                    *v == JsonValue::Array(*elements),
                    key_in_children(*v, key@, 0) == key_in_children(*v, key@, k as int),
                decreases elements@.len() - k,
            {
                proof {
                    assert(decreases_to!(*v => elements@[k as int]));
                }
                if let Some(found) = find_key(&elements[k], key) {
                    return Some(found);
                }
                k = k + 1;
            }
            None
        },
        _ => None,
    }
}

/// The value of the first member named `key`, taken out of its object.
pub fn take_member(members: Vec<(String, JsonValue)>, key: &str) -> (r: Option<JsonValue>)
    ensures
        r == member_from(members@, key@, 0),
{
    let ghost orig = members@;
    let mut rest = members;
    let mut k: usize = 0;
    while k < rest.len()
        invariant
            k <= rest@.len(),
            rest@ == orig,
            orig == members@,
            member_from(orig, key@, 0) == member_from(orig, key@, k as int),
        decreases rest@.len() - k,
    {
        if str_eq(rest[k].0.as_str(), key) {
            let entry = rest.remove(k);
            assert(entry == orig[k as int]);
            let value = entry.1;
            assert(member_from(orig, key@, 0) == Some(value));
            return Some(value);
        }
        k = k + 1;
    }
    None
}

/// The result a reply carries: its `result` member, `null` when it names none.
pub open spec fn reply_result(line: JsonValue) -> JsonValue {
    match member(line, "result"@) {
        Some(x) => x,
        None => JsonValue::Null,
    }
}

#[verifier::external_type_specification]
#[verifier::external_body]
pub struct ExJsonValue(serde_json::Value);

/// What parsing bytes as one JSON value gives, in the library's form:
/// `None` when they are not one complete JSON value. It depends on the bytes
/// alone; serde_json's grammar is named, not written out.
pub uninterp spec fn json_parse(bytes: Seq<u8>) -> Option<JsonValue>;

/// `serde_json::Value` in the library's form, variant for variant; a number
/// keeps its `as_u64` and `as_i64` readings. Nothing is claimed of it.
#[verifier::external_body]
fn from_serde(value: &serde_json::Value) -> JsonValue {
    match value {
        serde_json::Value::Null => JsonValue::Null,
        serde_json::Value::Bool(flag) => JsonValue::Bool(*flag),
        serde_json::Value::Number(n) => JsonValue::Number(JsonNumber { unsigned: n.as_u64(), signed: n.as_i64() }),
        serde_json::Value::String(text) => JsonValue::Text(text.clone()),
        serde_json::Value::Array(items) => JsonValue::Array(items.iter().map(from_serde).collect()),
        serde_json::Value::Object(map) => JsonValue::Object(map.iter().map(|(k, v)| (k.clone(), from_serde(v))).collect()),
    }
}

/// `serde_json::from_slice::<serde_json::Value>`: the bytes parsed as one
/// JSON value, in the library's form, or `None` when they are not one.
#[verifier::external_body]
pub fn parse_json(bytes: &[u8]) -> (r: Option<JsonValue>)
    ensures
        r == json_parse(bytes@),
{
    serde_json::from_slice::<serde_json::Value>(bytes).ok().map(|value| from_serde(&value))
}

/// What one line the App Server writes means for request `id`: a line that
/// is not JSON means the App Server is unusable; otherwise as
/// `app_server_reply` reads it.
pub fn app_server_line(line: &str, id: u64) -> (r: Option<CoreResult<JsonValue>>)
    ensures
        json_parse(line.spec_bytes()) is None ==> (r matches Some(Err(e)) && e.code@
            == "CODEX_UNAVAILABLE"@),
        json_parse(line.spec_bytes()) matches Some(v) && unsigned_in(member(v, "id"@)) != Some(id)
            ==> r is None,
        json_parse(line.spec_bytes()) matches Some(v) && unsigned_in(member(v, "id"@)) == Some(id)
            && member(v, "error"@) is Some ==> (r matches Some(Err(e)) && e.code@ == "CODEX_UNAVAILABLE"@),
        json_parse(line.spec_bytes()) matches Some(v) ==> (unsigned_in(member(v, "id"@)) == Some(id)
            && member(v, "error"@) is None ==> r == Some(Ok::<JsonValue, CoreError>(reply_result(v)))),
{
    match parse_json(line.as_bytes()) {
        Some(value) => app_server_reply(value, id),
        None => Some(Err(CoreError::new("CODEX_UNAVAILABLE", "App Server returned invalid JSON"))),
    }
}

/// What one line from the App Server means for request `id`: nothing when
/// it answers another request, the request's failure when it carries an
/// error, and otherwise its result (`null` when it names none).
pub fn app_server_reply(line: JsonValue, id: u64) -> (r: Option<CoreResult<JsonValue>>)
    ensures
        unsigned_in(member(line, "id"@)) != Some(id) ==> r is None,
        unsigned_in(member(line, "id"@)) == Some(id) && member(line, "error"@) is Some ==> (r matches Some(
            Err(e),
        ) && e.code@ == "CODEX_UNAVAILABLE"@),
        unsigned_in(member(line, "id"@)) == Some(id) && member(line, "error"@) is None ==> (r matches Some(
            Ok(v),
        ) && v == (match member(line, "result"@) {
            Some(x) => x,
            None => JsonValue::Null,
        })),
{
    let answered = unsigned_value(get_member(&line, "id"));
    if answered != Some(id) {
        return None;
    }
    if get_member(&line, "error").is_some() {
        return Some(Err(CoreError::new("CODEX_UNAVAILABLE", "App Server query failed")));
    }
    match line {
        JsonValue::Object(members) => match take_member(members, "result") {
            Some(result) => Some(Ok(result)),
            None => Some(Ok(JsonValue::Null)),
        },
        _ => Some(Ok(JsonValue::Null)),
    }
}

} // verus!
