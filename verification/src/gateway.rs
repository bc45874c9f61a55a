//! The bounded terminal gateway's rules: which identifiers may reach tmux,
//! how Control Mode output is decoded, and how Control Mode lines drive a
//! stream.

use vstd::prelude::*;
use vstd::string::*;

use crate::digest::{hex_bytes, hex_text};
use crate::protocol::{AttachedTerminal, ManagedSession, ManagedWindow, Phase3Error};
use crate::terminal::{lossy_text, utf8_lossy};
use crate::text::{
    ascii_bytes, byte_is_digit, decimal, decimal_text, find_char, first_index_of, lines_of,
    split_at_char, split_text, text_lines, byte_is_lower, bytes_start_with, concat_bytes, is_digit, is_lower,
    lemma_text_chars, literal_bytes, nth_token, parse_u16, parse_u16_str, skip_chars,
    slice_eq, slice_starts_with, split_whitespace_words, starts_with_str, str_eq, trim, trim_str,
    utf8_text,
};

verus! {

pub const MAX_INPUT_BYTES: usize = 16384;

pub const MIN_COLUMNS: u16 = 20;

pub const MAX_COLUMNS: u16 = 320;

pub const MIN_ROWS: u16 = 5;

pub const MAX_ROWS: u16 = 160;

pub const HISTORY_LINES: i32 = 300;

pub const MANAGED_PREFIX: &'static str = "mlp3-";

pub const CONTROL_RESPONSE_TIMEOUT_SECONDS: u64 = 5;

pub const BOOTSTRAP_START_TIMEOUT_SECONDS: u64 = 5;

pub const MAX_BUFFERED_CONTROL_LINES: usize = 1024;

pub const MAX_BUFFERED_CONTROL_BYTES: usize = 2097152;

pub const MAX_CONTROL_LINE_BYTES: usize = 262144;

pub const MAX_OUTPUT_EVENT_BYTES: usize = 65536;

pub const MAX_BURST_LINES: u16 = 2048;

pub const OVERFLOW_NONE: u8 = 0;

pub const OVERFLOW_LINE_BYTES: u8 = 1;

pub const OVERFLOW_BUFFER_BYTES: u8 = 2;

pub const OVERFLOW_BUFFER_LINES: u8 = 3;

/// A gateway error with a code and a fixed message.
pub fn error(code: &str, message: &str) -> (e: Phase3Error)
    ensures
        e.code@ == code@,
        e.message@ == message@,
{
    Phase3Error { code: String::from_str(code), message: String::from_str(message) }
}

pub fn validation_error(message: &str) -> (e: Phase3Error)
    ensures
        e.code@ == "validation"@,
        e.message@ == message@,
{
    error("validation", message)
}

pub fn unavailable_error(message: &str) -> (e: Phase3Error)
    ensures
        e.code@ == "unavailable"@,
        e.message@ == message@,
{
    error("unavailable", message)
}

pub fn not_found_error(message: &str) -> (e: Phase3Error)
    ensures
        e.code@ == "not_found"@,
        e.message@ == message@,
{
    error("not_found", message)
}

pub fn conflict_error(message: &str) -> (e: Phase3Error)
    ensures
        e.code@ == "conflict"@,
        e.message@ == message@,
{
    error("conflict", message)
}

pub fn state_error(message: &str) -> (e: Phase3Error)
    ensures
        e.code@ == "state"@,
        e.message@ == message@,
{
    error("state", message)
}

pub fn stale_stream_error(message: &str) -> (e: Phase3Error)
    ensures
        e.code@ == "stale_stream"@,
        e.message@ == message@,
{
    error("stale_stream", message)
}

pub fn internal_error(message: &str) -> (e: Phase3Error)
    ensures
        e.code@ == "internal"@,
        e.message@ == message@,
{
    error("internal", message)
}

/// A slug: 1 to `maximum` bytes, a lowercase letter first, then lowercase
/// letters, digits and `-`.
pub open spec fn is_slug(b: Seq<u8>, maximum: nat) -> bool {
    &&& 0 < b.len() <= maximum
    &&& is_lower(b[0])
    &&& forall|i: int| 0 <= i < b.len() ==> is_lower(#[trigger] b[i]) || is_digit(b[i]) || b[i] == 45u8
}

pub fn validate_slug(value: &str, maximum: usize, label: &str) -> (r: Result<(), Phase3Error>)
    ensures
        r is Ok <==> is_slug(value.spec_bytes(), maximum as nat),
        r matches Err(e) ==> e.code@ == "validation"@ && e.message@ == "invalid "@ + label@,
{
    let b = value.as_bytes();
    let n = b.len();
    let mut valid = n > 0 && n <= maximum && byte_is_lower(b[0]);
    let mut i: usize = 0;
    while i < n
        invariant
            b@ == value.spec_bytes(),
            n == b@.len(),
            i <= n,
            valid == (0 < n <= maximum && is_lower(b@[0]) && forall|j: int|
                0 <= j < i ==> is_lower(#[trigger] b@[j]) || is_digit(b@[j]) || b@[j] == 45u8),
        decreases n - i,
    {
        let x = b[i];
        let good = byte_is_lower(x) || byte_is_digit(x) || x == 45u8;
        proof {
            if valid && good {
                assert forall|j: int| 0 <= j < i + 1 implies is_lower(#[trigger] b@[j]) || is_digit(
                    b@[j],
                ) || b@[j] == 45u8 by {
                    if j == i {
                        assert(b@[j] == x);
                    }
                }
            }
        }
        valid = valid && good;
        i = i + 1;
    }
    if valid {
        Ok(())
    } else {
        let mut message = String::from_str("invalid ");
        message.append(label);
        Err(Phase3Error { code: String::from_str("validation"), message })
    }
}

pub fn validate_project_id(value: &str) -> (r: Result<(), Phase3Error>)
    ensures
        r is Ok <==> is_slug(value.spec_bytes(), 24),
        r matches Err(e) ==> e.code@ == "validation"@ && e.message@ == "invalid "@ + "project id"@,
{
    validate_slug(value, 24, "project id")
}

pub fn validate_socket(value: &str) -> (r: Result<(), Phase3Error>)
    ensures
        r is Ok <==> is_slug(value.spec_bytes(), 48),
        r matches Err(e) ==> e.code@ == "validation"@ && e.message@ == "invalid "@ + "tmux socket"@,
{
    validate_slug(value, 48, "tmux socket")
}

pub fn validate_window_name(value: &str) -> (r: Result<(), Phase3Error>)
    ensures
        r is Ok <==> is_slug(value.spec_bytes(), 24),
        r matches Err(e) ==> e.code@ == "validation"@ && e.message@ == "invalid "@ + "window name"@,
{
    validate_slug(value, 24, "window name")
}

/// A tmux identifier: the marker byte followed by at least one decimal digit.
pub open spec fn is_marked_number(b: Seq<u8>, marker: u8) -> bool {
    b.len() >= 2 && b[0] == marker && forall|i: int| 1 <= i < b.len() ==> is_digit(#[trigger] b[i])
}

fn marked_number(b: &[u8], marker: u8) -> (r: bool)
    ensures
        r == is_marked_number(b@, marker),
{
    if b.len() < 2 || b[0] != marker {
        return false;
    }
    let mut i: usize = 1;
    while i < b.len()
        invariant
            1 <= i <= b@.len(),
            forall|j: int| 1 <= j < i ==> is_digit(#[trigger] b@[j]),
        decreases b@.len() - i,
    {
        if !byte_is_digit(b[i]) {
            return false;
        }
        i = i + 1;
    }
    true
}

/// A tmux window id: `@` and digits.
pub open spec fn is_window_id(b: Seq<u8>) -> bool {
    is_marked_number(b, 64u8)
}

/// A tmux pane id: `%` and digits.
pub open spec fn is_pane_id(b: Seq<u8>) -> bool {
    is_marked_number(b, 37u8)
}

pub fn validate_window_id(value: &str) -> (r: Result<(), Phase3Error>)
    ensures
        r is Ok <==> is_window_id(value.spec_bytes()),
        r matches Err(e) ==> e.code@ == "validation"@ && e.message@ == "invalid managed window id"@,
{
    if marked_number(value.as_bytes(), 64u8) {
        Ok(())
    } else {
        Err(validation_error("invalid managed window id"))
    }
}

pub fn validate_pane_id(value: &str) -> (r: Result<(), Phase3Error>)
    ensures
        r is Ok <==> is_pane_id(value.spec_bytes()),
        r matches Err(e) ==> e.code@ == "validation"@ && e.message@ == "invalid managed pane id"@,
{
    if marked_number(value.as_bytes(), 37u8) {
        Ok(())
    } else {
        Err(validation_error("invalid managed pane id"))
    }
}

/// The managed tmux session of a project.
pub fn session_name(project_id: &str) -> (r: Result<String, Phase3Error>)
    ensures
        r is Ok <==> is_slug(project_id.spec_bytes(), 24),
        r matches Ok(name) ==> name@ == "mlp3-"@ + project_id@,
        r matches Err(e) ==> e.code@ == "validation"@ && e.message@ == "invalid "@ + "project id"@,
{
    validate_project_id(project_id)?;
    let mut name = String::from_str(MANAGED_PREFIX);
    name.append(project_id);
    Ok(name)
}

/// The tmux target of a managed window.
pub fn target_for_ids(project_id: &str, window_id: &str) -> (r: Result<String, Phase3Error>)
    ensures
        r is Ok <==> is_slug(project_id.spec_bytes(), 24) && is_window_id(window_id.spec_bytes()),
        r matches Ok(target) ==> target@ == "mlp3-"@ + project_id@ + ":"@ + window_id@,
        r matches Err(e) ==> e.code@ == "validation"@,
{
    let mut target = session_name(project_id)?;
    validate_window_id(window_id)?;
    target.append(":");
    target.append(window_id);
    Ok(target)
}

/// Two descriptions of the same attachment.
pub open spec fn same_attachment(a: AttachedTerminal, b: AttachedTerminal) -> bool {
    &&& a.connection_id@ == b.connection_id@
    &&& a.attachment_id == b.attachment_id
    &&& a.bootstrap_id == b.bootstrap_id
    &&& a.project_id@ == b.project_id@
    &&& a.window_id@ == b.window_id@
    &&& a.pane_id@ == b.pane_id@
}

/// Accepts a request only for the attachment that is current.
pub fn ensure_current_stream(current: &AttachedTerminal, requested: &AttachedTerminal) -> (r: Result<
    (),
    Phase3Error,
>)
    ensures
        r is Ok <==> same_attachment(*current, *requested),
        r matches Err(e) ==> e.code@ == "stale_stream"@ && e.message@
            == "terminal stream identity is stale"@,
{
    if str_eq(current.connection_id.as_str(), requested.connection_id.as_str())
        && current.attachment_id == requested.attachment_id && current.bootstrap_id
        == requested.bootstrap_id && str_eq(current.project_id.as_str(), requested.project_id.as_str())
        && str_eq(current.window_id.as_str(), requested.window_id.as_str()) && str_eq(
        current.pane_id.as_str(),
        requested.pane_id.as_str(),
    ) {
        Ok(())
    } else {
        Err(stale_stream_error("terminal stream identity is stale"))
    }
}

/// An octal digit byte.
pub open spec fn is_octal(b: u8) -> bool {
    48u8 <= b && b <= 55u8
}

/// The value of a three-digit octal escape.
pub open spec fn octal_value(a: u8, b: u8, c: u8) -> int {
    (a - 48) * 64 + (b - 48) * 8 + (c - 48)
}

/// tmux Control Mode's escaping undone: `\ooo` is the byte with that octal
/// value; a backslash without three octal digits makes the text invalid.
pub open spec fn decode_escapes(e: Seq<u8>) -> Option<Seq<u8>>
    decreases e.len(),
{
    if e.len() == 0 {
        Some(Seq::<u8>::empty())
    } else if e[0] != 92u8 {
        match decode_escapes(e.drop_first()) {
            Some(r) => Some(seq![e[0]] + r),
            None => None,
        }
    } else if e.len() >= 4 && is_octal(e[1]) && is_octal(e[2]) && is_octal(e[3]) {
        match decode_escapes(e.skip(4)) {
            Some(r) => Some(seq![octal_value(e[1], e[2], e[3]) as u8] + r),
            None => None,
        }
    } else {
        None
    }
}

/// Whether decoding reaches an escape whose value does not fit in a byte
/// (above `\377`), where the byte arithmetic overflows.
pub open spec fn escape_overflows(e: Seq<u8>) -> bool
    decreases e.len(),
{
    if e.len() == 0 {
        false
    } else if e[0] != 92u8 {
        escape_overflows(e.drop_first())
    } else if e.len() >= 4 && is_octal(e[1]) && is_octal(e[2]) && is_octal(e[3]) {
        e[1] > 51u8 || escape_overflows(e.skip(4))
    } else {
        false
    }
}

/// `p` is the position of the first space in `v`.
pub open spec fn first_space_at(v: Seq<u8>, p: int) -> bool {
    0 <= p < v.len() && v[p] == 32u8 && forall|j: int| 0 <= j < p ==> v[j] != 32u8
}

/// The text of an ASCII byte string.
pub open spec fn ascii_text(b: Seq<u8>) -> Seq<char> {
    b.map_values(|x: u8| x as char)
}

/// The pane id and decoded bytes of a Control Mode `%output` payload.
pub open spec fn control_output(v: Seq<u8>) -> Option<(Seq<char>, Seq<u8>)> {
    if exists|p: int| first_space_at(v, p) {
        let p = choose|p: int| first_space_at(v, p);
        if is_pane_id(v.take(p)) {
            match decode_escapes(v.skip(p + 1)) {
                Some(bytes) => Some((ascii_text(v.take(p)), bytes)),
                None => None,
            }
        } else {
            None
        }
    } else {
        None
    }
}

/// Whether decoding the payload reaches an escape that does not fit a byte.
pub open spec fn control_output_overflows(v: Seq<u8>) -> bool {
    exists|p: int| first_space_at(v, p) && is_pane_id(v.take(p)) && escape_overflows(v.skip(p + 1))
}

fn first_space(v: &[u8]) -> (r: Option<usize>)
    ensures
        r matches Some(p) ==> first_space_at(v@, p as int),
        r is None ==> !exists|p: int| first_space_at(v@, p),
{
    let mut i: usize = 0;
    while i < v.len()
        invariant
            i <= v@.len(),
            forall|j: int| 0 <= j < i ==> v@[j] != 32u8,
        decreases v@.len() - i,
    {
        if v[i] == 32u8 {
            return Some(i);
        }
        i = i + 1;
    }
    proof {
        assert forall|p: int| !first_space_at(v@, p) by {
            if 0 <= p < v@.len() {
                assert(v@[p] != 32u8);
            }
        }
    }
    None
}

proof fn lemma_first_space_unique(v: Seq<u8>, p: int, q: int)
    requires
        first_space_at(v, p),
        first_space_at(v, q),
    ensures
        p == q,
{
    if p < q {
        assert(v[p] != 32u8);
    } else if q < p {
        assert(v[q] != 32u8);
    }
}

/// Whether a Control Mode payload would overflow when decoded.
pub fn output_payload_overflows(value: &[u8]) -> (r: bool)
    ensures
        r == control_output_overflows(value@),
{
    match first_space(value) {
        None => false,
        Some(p) => {
            let pane = slice_prefix(value, p);
            if !marked_number(pane.as_slice(), 37u8) {
                proof {
                    assert forall|q: int|
                        !(first_space_at(value@, q) && is_pane_id(value@.take(q)) && escape_overflows(
                            value@.skip(q + 1),
                        )) by {
                        if first_space_at(value@, q) {
                            lemma_first_space_unique(value@, p as int, q);
                        }
                    }
                }
                return false;
            }
            let len = value.len();
            assert(p < len);
            let rest = slice_suffix(value, p + 1);
            let r = escapes_overflow(rest.as_slice());
            proof {
                if r {
                    assert(first_space_at(value@, p as int) && is_pane_id(value@.take(p as int))
                        && escape_overflows(value@.skip(p + 1)));
                } else {
                    assert forall|q: int|
                        !(first_space_at(value@, q) && is_pane_id(value@.take(q)) && escape_overflows(
                            value@.skip(q + 1),
                        )) by {
                        if first_space_at(value@, q) {
                            lemma_first_space_unique(value@, p as int, q);
                        }
                    }
                }
            }
            r
        },
    }
}

/// The first `n` bytes.
pub fn slice_prefix(v: &[u8], n: usize) -> (r: Vec<u8>)
    requires
        n <= v@.len(),
    ensures
        r@ == v@.take(n as int),
{
    let mut r: Vec<u8> = Vec::new();
    let mut i: usize = 0;
    while i < n
        invariant
            n <= v@.len(),
            i <= n,
            r@ == v@.take(i as int),
        decreases n - i,
    {
        r.push(v[i]);
        proof {
            assert(v@.take(i + 1) =~= v@.take(i as int).push(v@[i as int]));
        }
        i = i + 1;
    }
    r
}

/// The bytes from position `n` on.
pub fn slice_suffix(v: &[u8], n: usize) -> (r: Vec<u8>)
    requires
        n <= v@.len(),
    ensures
        r@ == v@.skip(n as int),
{
    let mut r: Vec<u8> = Vec::new();
    let mut i: usize = n;
    while i < v.len()
        invariant
            n <= i <= v@.len(),
            r@ == v@.subrange(n as int, i as int),
        decreases v@.len() - i,
    {
        r.push(v[i]);
        proof {
            assert(v@.subrange(n as int, i + 1) =~= v@.subrange(n as int, i as int).push(
                v@[i as int],
            ));
        }
        i = i + 1;
    }
    proof {
        assert(v@.subrange(n as int, v@.len() as int) =~= v@.skip(n as int));
    }
    r
}

fn escapes_overflow(e: &[u8]) -> (r: bool)
    ensures
        r == escape_overflows(e@),
{
    let n = e.len();
    let mut i: usize = 0;
    proof {
        assert(e@.skip(0) =~= e@);
    }
    while i < n
        invariant
            n == e@.len(),
            i <= n,
            escape_overflows(e@) == escape_overflows(e@.skip(i as int)),
        decreases n - i,
    {
        let ghost rest = e@.skip(i as int);
        if e[i] != 92u8 {
            proof {
                assert(rest.drop_first() =~= e@.skip(i + 1));
            }
            i = i + 1;
        } else if n - i > 3 && 48u8 <= e[i + 1] && e[i + 1] <= 55u8 && 48u8 <= e[i + 2] && e[i + 2]
            <= 55u8 && 48u8 <= e[i + 3] && e[i + 3] <= 55u8 {
            if e[i + 1] > 51u8 {
                return true;
            }
            proof {
                assert(rest.skip(4) =~= e@.skip(i + 4));
            }
            i = i + 4;
        } else {
            return false;
        }
    }
    proof {
        assert(e@.skip(n as int).len() == 0);
    }
    false
}

/// Decodes a Control Mode `%output` payload into its pane id and bytes.
pub fn parse_control_output(value: &[u8]) -> (r: Option<(String, Vec<u8>)>)
    requires
        !control_output_overflows(value@),
    ensures
        match r {
            Some((pane, bytes)) => control_output(value@) == Some((pane@, bytes@)),
            None => control_output(value@) is None,
        },
{
    let p = match first_space(value) {
        Some(p) => p,
        None => {
            return None;
        },
    };
    proof {
        let q = choose|q: int| first_space_at(value@, q);
        lemma_first_space_unique(value@, p as int, q);
    }
    let pane_bytes = slice_prefix(value, p);
    if !marked_number(pane_bytes.as_slice(), 37u8) {
        return None;
    }
    let mut pane = String::new();
    let mut k: usize = 0;
    while k < p
        invariant
            p == pane_bytes@.len(),
            k <= p,
            pane@ == ascii_text(pane_bytes@.take(k as int)),
        decreases p - k,
    {
        pane.push(pane_bytes[k] as char);
        proof {
            assert(ascii_text(pane_bytes@.take(k + 1)) =~= ascii_text(pane_bytes@.take(k as int)).push(
                pane_bytes@[k as int] as char,
            ));
        }
        k = k + 1;
    }
    proof {
        assert(pane_bytes@.take(p as int) =~= pane_bytes@);
    }
    let len = value.len();
    assert(p < len);
    let e = slice_suffix(value, p + 1);
    assert(exists|q: int| first_space_at(value@, q));
    let ghost whole = match decode_escapes(e@) {
        Some(b) => Some((pane@, b)),
        None => None,
    };
    assert(control_output(value@) == whole);
    let n = e.len();
    let mut out: Vec<u8> = Vec::new();
    let mut i: usize = 0;
    proof {
        assert(e@.skip(0) =~= e@);
        assert(out@ + Seq::<u8>::empty() =~= out@);
        if !escape_overflows(e@) {
        } else {
            assert(control_output_overflows(value@));
        }
    }
    while i < n
        invariant
            n == e@.len(),
            i <= n,
            !escape_overflows(e@.skip(i as int)),
            control_output(value@) == whole,
            whole == match decode_escapes(e@) {
                Some(b) => Some((pane@, b)),
                None => None,
            },
            decode_escapes(e@) == match decode_escapes(e@.skip(i as int)) {
                Some(rest) => Some(out@ + rest),
                None => None,
            },
        decreases n - i,
    {
        let ghost rest = e@.skip(i as int);
        if e[i] != 92u8 {
            proof {
                assert(rest.drop_first() =~= e@.skip(i + 1));
                match decode_escapes(e@.skip(i + 1)) {
                    Some(tail) => {
                        assert(out@.push(e@[i as int]) + tail =~= out@ + (seq![e@[i as int]] + tail));
                    },
                    None => {},
                }
            }
            out.push(e[i]);
            i = i + 1;
        } else if n - i > 3 && 48u8 <= e[i + 1] && e[i + 1] <= 55u8 && 48u8 <= e[i + 2] && e[i + 2]
            <= 55u8 && 48u8 <= e[i + 3] && e[i + 3] <= 55u8 {
            let a = e[i + 1];
            let b = e[i + 2];
            let c = e[i + 3];
            let byte = ((a - 48u8) as u32 * 64 + (b - 48u8) as u32 * 8 + (c - 48u8) as u32) as u8;
            proof {
                assert(rest[1] == a && rest[2] == b && rest[3] == c);
                assert(a <= 51u8);
                assert(byte as int == octal_value(a, b, c));
                assert(rest.skip(4) =~= e@.skip(i + 4));
                match decode_escapes(e@.skip(i + 4)) {
                    Some(tail) => {
                        assert(out@.push(byte) + tail =~= out@ + (seq![byte] + tail));
                    },
                    None => {},
                }
            }
            out.push(byte);
            i = i + 4;
        } else {
            proof {
                assert(rest[0] == 92u8);
                assert(rest.len() == n - i);
                if rest.len() >= 4 {
                    assert(rest[1] == e@[i + 1] && rest[2] == e@[i + 2] && rest[3] == e@[i + 3]);
                }
                assert(decode_escapes(rest) is None);
            }
            return None;
        }
    }
    proof {
        assert(e@.skip(n as int) =~= Seq::<u8>::empty());
        assert(out@ + Seq::<u8>::empty() =~= out@);
    }
    Some((pane, out))
}

/// How many burst lines a synthetic runner input asks for: text that, trimmed,
/// reads `BURST ` and an unsigned 16-bit number of at most 2048.
pub open spec fn burst_request(b: Seq<u8>) -> Option<u16> {
    if vstd::utf8::valid_utf8(b) {
        let t = trim(vstd::utf8::decode_utf8(b));
        if 6 <= t.len() && t.take(6) == "BURST "@ {
            match parse_u16(t.skip(6)) {
                Some(n) => if n <= 2048 {
                    Some(n)
                } else {
                    None
                },
                None => None,
            }
        } else {
            None
        }
    } else {
        None
    }
}

pub fn synthetic_burst_count(bytes: &[u8]) -> (r: Option<u16>)
    ensures
        r == burst_request(bytes@),
{
    proof {
        reveal_strlit("BURST ");
    }
    let text = match utf8_text(bytes) {
        Some(text) => text,
        None => {
            return None;
        },
    };
    proof {
        lemma_text_chars(text, bytes@);
    }
    let command = trim_str(text);
    if !starts_with_str(command, "BURST ") {
        return None;
    }
    let count = parse_u16_str(skip_chars(command, 6));
    match count {
        Some(n) => if n <= MAX_BURST_LINES {
            Some(n)
        } else {
            None
        },
        None => None,
    }
}

/// Where a command that waits for its Control Mode reply block stands.
#[derive(Debug, Clone, Copy, PartialEq, Eq, Structural)]
pub enum BlockProgress {
    Pending,
    Completed,
    Failed,
}

/// The command number expected after one Control Mode line, and whether the
/// line closed the block that carries that number. A `%begin` line sets the
/// number (its second word); an `%end` or `%error` line with that number as its
/// third word completes or fails the command; any other line, or one that is
/// not UTF-8, changes nothing.
pub open spec fn block_step(expected: Option<Seq<char>>, line: Seq<u8>) -> (
    Option<Seq<char>>,
    BlockProgress,
) {
    if !vstd::utf8::valid_utf8(line) {
        (expected, BlockProgress::Pending)
    } else {
        let t = vstd::utf8::decode_utf8(line);
        if 7 <= t.len() && t.take(7) == "%begin "@ {
            (nth_token(t.skip(7), 1), BlockProgress::Pending)
        } else if (5 <= t.len() && t.take(5) == "%end "@) || (7 <= t.len() && t.take(7)
            == "%error "@) {
            if nth_token(t, 2) == expected {
                if 5 <= t.len() && t.take(5) == "%end "@ {
                    (expected, BlockProgress::Completed)
                } else {
                    (expected, BlockProgress::Failed)
                }
            } else {
                (expected, BlockProgress::Pending)
            }
        } else {
            (expected, BlockProgress::Pending)
        }
    }
}

/// The text of an optional string.
pub open spec fn opt_text(o: Option<String>) -> Option<Seq<char>> {
    match o {
        Some(s) => Some(s@),
        None => None,
    }
}

fn nth_word(s: &str, k: usize) -> (r: Option<String>)
    ensures
        opt_text(r) == nth_token(s@, k as int),
{
    let words = split_whitespace_words(s);
    if k < words.len() {
        let w = words[k].clone();
        proof {
            assert(words@.map_values(|w: String| w@)[k as int] == words@[k as int]@);
        }
        Some(w)
    } else {
        None
    }
}

fn same_text(a: &Option<String>, b: &Option<String>) -> (r: bool)
    ensures
        r == (opt_text(*a) == opt_text(*b)),
{
    match (a, b) {
        (Some(x), Some(y)) => str_eq(x.as_str(), y.as_str()),
        (None, None) => true,
        _ => false,
    }
}

/// One step of waiting for a Control Mode reply block.
pub fn command_block_step(expected: Option<String>, line: &[u8]) -> (r: (
    Option<String>,
    BlockProgress,
))
    ensures
        (opt_text(r.0), r.1) == block_step(opt_text(expected), line@),
{
    proof {
        reveal_strlit("%begin ");
        reveal_strlit("%end ");
        reveal_strlit("%error ");
    }
    let text = match utf8_text(line) {
        Some(text) => text,
        None => {
            return (expected, BlockProgress::Pending);
        },
    };
    proof {
        lemma_text_chars(text, line@);
    }
    if starts_with_str(text, "%begin ") {
        let rest = skip_chars(text, 7);
        return (nth_word(rest, 1), BlockProgress::Pending);
    }
    let is_end = starts_with_str(text, "%end ");
    let is_error = starts_with_str(text, "%error ");
    if is_end || is_error {
        let number = nth_word(text, 2);
        if same_text(&number, &expected) {
            if is_end {
                return (expected, BlockProgress::Completed);
            } else {
                return (expected, BlockProgress::Failed);
            }
        }
    }
    (expected, BlockProgress::Pending)
}

/// What one Control Mode line means to a live stream.
#[derive(Debug, Clone, PartialEq, Eq)]
pub enum LineEffect {
    /// Nothing for this stream.
    Skip,
    /// Output of the stream's pane, decoded.
    Output(Vec<u8>),
    /// Output of the stream's pane larger than one event may carry.
    TooLarge,
    /// The Control Mode client exited or the stream's window closed.
    Closed,
}

/// The meaning of a Control Mode line, as a spec value.
pub enum LineMeaning {
    Skip,
    Output(Seq<u8>),
    TooLarge,
    Closed,
}

pub open spec fn meaning(e: LineEffect) -> LineMeaning {
    match e {
        LineEffect::Skip => LineMeaning::Skip,
        LineEffect::Output(bytes) => LineMeaning::Output(bytes@),
        LineEffect::TooLarge => LineMeaning::TooLarge,
        LineEffect::Closed => LineMeaning::Closed,
    }
}

/// What a stream's forwarder emits for one Control Mode line; each event
/// carries the stream's sequence number.
#[derive(Debug, Clone, PartialEq, Eq)]
pub enum ForwardEvent {
    /// Nothing is emitted.
    Nothing,
    /// Decoded output.
    Output(u64, Vec<u8>),
    /// The stream ends with `output_frame_too_large`.
    TooLarge(u64),
    /// The stream is closed.
    Closed(u64),
}

/// One step of a stream's forwarder: the event to emit, the sequence number
/// of the next event, and whether the stream ends here.
pub struct ForwardStep {
    pub event: ForwardEvent,
    pub next_sequence: u64,
    pub stop: bool,
}

/// The sequence number after `n`, saturating.
pub open spec fn sequence_after(n: u64) -> u64 {
    if n == u64::MAX {
        n
    } else {
        (n + 1) as u64
    }
}

/// The forwarder's step for a line meaning `effect` when the next event is
/// numbered `next_sequence`: output is emitted under that number, which
/// then advances by one; an oversized output or a close is emitted under
/// it and ends the stream; anything else emits nothing.
pub fn forward_step(next_sequence: u64, effect: LineEffect) -> (r: ForwardStep)
    ensures
        effect is Skip ==> r.event is Nothing && r.next_sequence == next_sequence && !r.stop,
        effect matches LineEffect::Output(bytes) ==> (r.event matches ForwardEvent::Output(n, out) && n
            == next_sequence && out@ == bytes@) && r.next_sequence == sequence_after(next_sequence)
            && !r.stop,
        effect is TooLarge ==> r.event == ForwardEvent::TooLarge(next_sequence) && r.next_sequence
            == next_sequence && r.stop,
        effect is Closed ==> r.event == ForwardEvent::Closed(next_sequence) && r.next_sequence
            == next_sequence && r.stop,
{
    match effect {
        LineEffect::Skip => ForwardStep { event: ForwardEvent::Nothing, next_sequence, stop: false },
        LineEffect::Output(bytes) => ForwardStep {
            event: ForwardEvent::Output(next_sequence, bytes),
            next_sequence: next_sequence.saturating_add(1),
            stop: false,
        },
        LineEffect::TooLarge => ForwardStep {
            event: ForwardEvent::TooLarge(next_sequence),
            next_sequence,
            stop: true,
        },
        LineEffect::Closed => ForwardStep {
            event: ForwardEvent::Closed(next_sequence),
            next_sequence,
            stop: true,
        },
    }
}

/// The sequence numbers of the events a forwarder starting at `start`
/// emits for lines with the given meanings, up to the line that ends the
/// stream.
pub open spec fn emitted_sequences(start: u64, lines: Seq<LineMeaning>) -> Seq<u64>
    decreases lines.len(),
{
    if lines.len() == 0 {
        Seq::empty()
    } else {
        match lines[0] {
            LineMeaning::Skip => emitted_sequences(start, lines.drop_first()),
            LineMeaning::Output(_) => seq![start] + emitted_sequences(
                sequence_after(start),
                lines.drop_first(),
            ),
            _ => seq![start],
        }
    }
}

/// A stream's events are numbered without gaps: the k-th event a forwarder
/// emits carries its first number plus k, as long as the numbers stay below
/// `u64::MAX`.
pub proof fn lemma_stream_sequences_have_no_gaps(start: u64, lines: Seq<LineMeaning>)
    requires
        start + lines.len() <= u64::MAX,
    ensures
        emitted_sequences(start, lines).len() <= lines.len(),
        forall|k: int|
            0 <= k < emitted_sequences(start, lines).len() ==> #[trigger] emitted_sequences(
                start,
                lines,
            )[k] == start + k,
    decreases lines.len(),
{
    if lines.len() > 0 {
        let rest = lines.drop_first();
        match lines[0] {
            LineMeaning::Skip => {
                lemma_stream_sequences_have_no_gaps(start, rest);
            },
            LineMeaning::Output(_) => {
                lemma_stream_sequences_have_no_gaps(sequence_after(start), rest);
                let tail = emitted_sequences(sequence_after(start), rest);
                assert forall|k: int|
                    0 <= k < emitted_sequences(start, lines).len() implies #[trigger] emitted_sequences(
                    start,
                    lines,
                )[k] == start + k by {
                    if k > 0 {
                        assert(emitted_sequences(start, lines)[k] == tail[k - 1]);
                    }
                }
            },
            _ => {},
        }
    }
}

/// Whether a line is `%output ` followed by a payload whose decoding would
/// reach an escape above `\377`.
pub open spec fn output_line_overflows(line: Seq<u8>) -> bool {
    bytes_start_with(line, ascii_bytes("%output "@)) && control_output_overflows(line.skip(8))
}

/// A line's meaning for the stream of pane `pane` in window `window`: the
/// pane's decoded `%output`, refused above 65536 bytes; `%exit`, or the close
/// of the stream's window, ends the stream; anything else is skipped.
pub open spec fn line_meaning(line: Seq<u8>, pane: Seq<char>, window: Seq<u8>) -> LineMeaning {
    if bytes_start_with(line, ascii_bytes("%output "@)) && control_output(line.skip(8)) is Some {
        let (p, bytes) = control_output(line.skip(8))->0;
        if p != pane {
            LineMeaning::Skip
        } else if bytes.len() > 65536 {
            LineMeaning::TooLarge
        } else {
            LineMeaning::Output(bytes)
        }
    } else if line == ascii_bytes("%exit"@) || bytes_start_with(line, ascii_bytes("%exit "@)) {
        LineMeaning::Closed
    } else if line == ascii_bytes("%window-close "@) + window || line == ascii_bytes(
        "%unlinked-window-close "@,
    ) + window {
        LineMeaning::Closed
    } else {
        LineMeaning::Skip
    }
}

/// Classifies one Control Mode line for a live stream.
pub fn control_line_effect(line: &[u8], pane_id: &str, window_id: &str) -> (r: LineEffect)
    requires
        !output_line_overflows(line@),
    ensures
        meaning(r) == line_meaning(line@, pane_id@, window_id.spec_bytes()),
{
    proof {
        reveal_strlit("%output ");
        reveal_strlit("%exit");
        reveal_strlit("%exit ");
        reveal_strlit("%window-close ");
        reveal_strlit("%unlinked-window-close ");
    }
    let output_marker = literal_bytes("%output ");
    if slice_starts_with(line, output_marker) {
        let payload = slice_suffix(line, 8);
        match parse_control_output(payload.as_slice()) {
            Some((pane, bytes)) => {
                if !str_eq(pane.as_str(), pane_id) {
                    return LineEffect::Skip;
                }
                if bytes.len() > MAX_OUTPUT_EVENT_BYTES {
                    return LineEffect::TooLarge;
                }
                return LineEffect::Output(bytes);
            },
            None => {},
        }
    }
    if slice_eq(line, literal_bytes("%exit")) || slice_starts_with(line, literal_bytes("%exit ")) {
        return LineEffect::Closed;
    }
    let window = window_id.as_bytes();
    let closed = concat_bytes(literal_bytes("%window-close "), window);
    let unlinked = concat_bytes(literal_bytes("%unlinked-window-close "), window);
    if slice_eq(line, closed.as_slice()) || slice_eq(line, unlinked.as_slice()) {
        return LineEffect::Closed;
    }
    LineEffect::Skip
}

/// The stream error reported when Control Mode output ends without a close,
/// by what the reader recorded.
pub fn stream_end_code(overflow: u8) -> (r: &'static str)
    ensures
        overflow == OVERFLOW_LINE_BYTES ==> r@ == "output_control_line_too_large"@,
        overflow == OVERFLOW_BUFFER_BYTES ==> r@ == "output_buffer_byte_limit"@,
        overflow == OVERFLOW_BUFFER_LINES ==> r@ == "output_buffer_line_limit"@,
        overflow != OVERFLOW_LINE_BYTES && overflow != OVERFLOW_BUFFER_BYTES && overflow
            != OVERFLOW_BUFFER_LINES ==> r@ == "control_mode_disconnected"@,
{
    if overflow == OVERFLOW_LINE_BYTES {
        "output_control_line_too_large"
    } else if overflow == OVERFLOW_BUFFER_BYTES {
        "output_buffer_byte_limit"
    } else if overflow == OVERFLOW_BUFFER_LINES {
        "output_buffer_line_limit"
    } else {
        "control_mode_disconnected"
    }
}


/// Payload bytes without a backslash are handed through byte for byte:
/// terminal output is never reinterpreted as text.
pub proof fn lemma_plain_payload_passes_through(e: Seq<u8>)
    requires
        forall|i: int| 0 <= i < e.len() ==> e[i] != 92u8,
    ensures
        decode_escapes(e) == Some(e),
        !escape_overflows(e),
    decreases e.len(),
{
    if e.len() > 0 {
        let rest = e.drop_first();
        assert forall|i: int| 0 <= i < rest.len() implies rest[i] != 92u8 by {
            assert(rest[i] == e[i + 1]);
        }
        lemma_plain_payload_passes_through(rest);
        assert(seq![e[0]] + rest =~= e);
    }
}

/// A decoded payload is never longer than its encoding: escapes only shrink.
pub proof fn lemma_decoded_payload_not_longer(e: Seq<u8>)
    ensures
        decode_escapes(e) matches Some(d) ==> d.len() <= e.len(),
    decreases e.len(),
{
    if e.len() > 0 {
        if e[0] != 92u8 {
            lemma_decoded_payload_not_longer(e.drop_first());
        } else if e.len() >= 4 && is_octal(e[1]) && is_octal(e[2]) && is_octal(e[3]) {
            lemma_decoded_payload_not_longer(e.skip(4));
        }
    }
}

/// What `tmux -V` reports, trimmed: it must have run and must name tmux.
pub fn tmux_version_text(succeeded: bool, stdout: &[u8]) -> (r: Result<String, Phase3Error>)
    ensures
        r is Ok <==> succeeded && trim(lossy_text(stdout@)).len() >= 5 && trim(
            lossy_text(stdout@),
        ).take(5) == "tmux "@,
        r matches Ok(v) ==> v@ == trim(lossy_text(stdout@)),
        r matches Err(e) ==> e.code@ == "unavailable"@,
{
    if !succeeded {
        return Err(unavailable_error("tmux version probe failed"));
    }
    let text = utf8_lossy(stdout);
    let version = trim_str(text.as_str());
    proof {
        reveal_strlit("tmux ");
    }
    if starts_with_str(version, "tmux ") {
        Ok(version.to_string())
    } else {
        Err(unavailable_error("tmux reported an invalid version"))
    }
}

/// An attachment goes ahead only when its own Control Mode client is the
/// only one on the socket: `list-clients` must report exactly one line.
pub fn check_sole_client(clients: &str) -> (r: Result<(), Phase3Error>)
    ensures
        r is Ok <==> text_lines(clients@).len() == 1,
        r matches Err(e) ==> e.code@ == "conflict"@,
{
    let lines = lines_of(clients);
    if lines.len() != 1 {
        return Err(conflict_error("managed pane already has another tmux client"));
    }
    Ok(())
}

/// The one pane of a managed window, from `list-panes` output.
pub fn single_pane(output: &str) -> (r: Result<String, Phase3Error>)
    ensures
        r is Ok <==> text_lines(output@).len() == 1 && is_pane_id(
            vstd::utf8::encode_utf8(text_lines(output@)[0]),
        ),
        r matches Ok(pane) ==> pane@ == text_lines(output@)[0],
        text_lines(output@).len() == 0 ==> (r matches Err(e) && e.code@ == "not_found"@),
        text_lines(output@).len() > 1 ==> (r matches Err(e) && e.code@ == "state"@),
{
    let lines = lines_of(output);
    if lines.len() == 0 {
        return Err(not_found_error("managed pane does not exist"));
    }
    if lines.len() > 1 {
        return Err(state_error("Phase 3 does not support multiple panes per window"));
    }
    assert(lines@[0]@ == text_lines(output@)[0]);
    validate_pane_id(lines[0].as_str())?;
    Ok(lines[0].clone())
}

/// The target of a window that the managed session lists.
pub fn window_target(windows: &Vec<ManagedWindow>, project_id: &str, window_id: &str) -> (r: Result<
    String,
    Phase3Error,
>)
    ensures
        r is Ok <==> (exists|i: int| 0 <= i < windows@.len() && #[trigger] windows@[i].id@ == window_id@)
            && is_slug(project_id.spec_bytes(), 24) && is_window_id(window_id.spec_bytes()),
        r matches Ok(target) ==> target@ == "mlp3-"@ + project_id@ + ":"@ + window_id@,
        !(exists|i: int| 0 <= i < windows@.len() && #[trigger] windows@[i].id@ == window_id@) ==> (
        r matches Err(e) && e.code@ == "not_found"@),
{
    let mut i: usize = 0;
    while i < windows.len()
        invariant
            i <= windows@.len(),
            forall|j: int| 0 <= j < i ==> #[trigger] windows@[j].id@ != window_id@,
        decreases windows@.len() - i,
    {
        if str_eq(windows[i].id.as_str(), window_id) {
            return target_for_ids(project_id, window_id);
        }
        i = i + 1;
    }
    Err(not_found_error("managed window does not exist"))
}

/// A managed session named on one line of `list-sessions` output
/// (`name<TAB>id`): its project, name and id, when the name is the managed
/// prefix followed by a valid project id.
pub open spec fn managed_session_of(line: Seq<char>) -> Option<(Seq<char>, Seq<char>, Seq<char>)> {
    match first_index_of(line, '\t') {
        None => None,
        Some(k) => {
            let name = line.take(k);
            if name.len() >= 5 && name.take(5) == "mlp3-"@ && is_slug(
                vstd::utf8::encode_utf8(name.skip(5)),
                24,
            ) {
                Some((name.skip(5), name, line.skip(k + 1)))
            } else {
                None
            }
        },
    }
}

/// The managed sessions named by lines, in order.
pub open spec fn managed_sessions_of(lines: Seq<Seq<char>>) -> Seq<(Seq<char>, Seq<char>, Seq<char>)>
    decreases lines.len(),
{
    if lines.len() == 0 {
        Seq::empty()
    } else {
        let before = managed_sessions_of(lines.drop_last());
        match managed_session_of(lines.last()) {
            Some(m) => before.push(m),
            None => before,
        }
    }
}

/// The managed sessions that `list-sessions` output names; other sessions
/// and unreadable lines are passed over.
pub fn managed_sessions(output: &str) -> (r: Vec<ManagedSession>)
    ensures
        r@.map_values(|m: ManagedSession| (m.project_id@, m.session_name@, m.session_id@))
            == managed_sessions_of(text_lines(output@)),
{
    let lines = lines_of(output);
    let ghost ls = text_lines(output@);
    let mut out: Vec<ManagedSession> = Vec::new();
    let mut k: usize = 0;
    proof {
        reveal_strlit("mlp3-");
        assert(ls.take(0) =~= Seq::<Seq<char>>::empty());
    }
    while k < lines.len()
        invariant
            lines@.map_values(|l: String| l@) == ls,
            k <= lines@.len(),
            out@.map_values(|m: ManagedSession| (m.project_id@, m.session_name@, m.session_id@))
                == managed_sessions_of(ls.take(k as int)),
        decreases lines@.len() - k,
    {
        proof {
            reveal_strlit("mlp3-");
        }
        let line = lines[k].as_str();
        assert(line@ == ls[k as int]);
        assert(ls.take(k + 1).drop_last() =~= ls.take(k as int));
        assert(ls.take(k + 1).last() == ls[k as int]);
        let ghost before = out@.map_values(
            |m: ManagedSession| (m.project_id@, m.session_name@, m.session_id@),
        );
        let n = line.unicode_len();
        match find_char(line, '\t') {
            Some(tab) => {
                let name = line.substring_char(0, tab);
                let id = line.substring_char(tab + 1, n);
                proof {
                    assert(name@ =~= line@.take(tab as int));
                    assert(id@ =~= line@.skip(tab + 1));
                }
                if starts_with_str(name, "mlp3-") {
                    let project_id = name.substring_char(5, name.unicode_len());
                    proof {
                        assert(project_id@ =~= name@.skip(5));
                    }
                    if validate_project_id(project_id).is_ok() {
                        out.push(
                            ManagedSession {
                                project_id: project_id.to_string(),
                                session_name: name.to_string(),
                                session_id: id.to_string(),
                            },
                        );
                        proof {
                            assert(managed_session_of(ls[k as int]) == Some(
                                (project_id@, name@, id@),
                            ));
                            assert(out@.map_values(
                                |m: ManagedSession| (m.project_id@, m.session_name@, m.session_id@),
                            ) =~= before.push((project_id@, name@, id@)));
                        }
                    } else {
                        assert(managed_session_of(ls[k as int]) is None);
                    }
                } else {
                    assert(managed_session_of(ls[k as int]) is None);
                }
            },
            None => {
                assert(managed_session_of(ls[k as int]) is None);
            },
        }
        k = k + 1;
    }
    proof {
        assert(ls.take(lines@.len() as int) =~= ls);
    }
    out
}

/// A managed window named on one line of `list-windows` output
/// (`id<TAB>name<TAB>active`), or the error that line gives.
pub open spec fn managed_window_of(line: Seq<char>) -> Result<(Seq<char>, Seq<char>, bool), (Seq<char>, Seq<char>)> {
    let f = split_at_char(line, '\t');
    if f.len() < 2 {
        Err(("internal"@, "tmux window name missing"@))
    } else if f.len() < 3 {
        Err(("internal"@, "tmux window activity missing"@))
    } else if !is_window_id(vstd::utf8::encode_utf8(f[0])) {
        Err(("validation"@, "invalid managed window id"@))
    } else {
        Ok((f[0], f[1], f[2] == "1"@))
    }
}

/// The windows that lines name, or the error of the first line that names
/// none.
pub open spec fn managed_windows_of(lines: Seq<Seq<char>>) -> Result<Seq<(Seq<char>, Seq<char>, bool)>, (Seq<char>, Seq<char>)>
    decreases lines.len(),
{
    if lines.len() == 0 {
        Ok(Seq::empty())
    } else {
        match managed_windows_of(lines.drop_last()) {
            Err(e) => Err(e),
            Ok(before) => match managed_window_of(lines.last()) {
                Ok(w) => Ok(before.push(w)),
                Err(e) => Err(e),
            },
        }
    }
}

proof fn lemma_windows_error_persists(lines: Seq<Seq<char>>, k: int)
    requires
        0 <= k <= lines.len(),
        managed_windows_of(lines.take(k)) is Err,
    ensures
        managed_windows_of(lines) == managed_windows_of(lines.take(k)),
    decreases lines.len() - k,
{
    if k < lines.len() {
        assert(lines.take(k + 1).drop_last() =~= lines.take(k));
        lemma_windows_error_persists(lines, k + 1);
    } else {
        assert(lines.take(k) =~= lines);
    }
}

/// The windows of a managed session, from `list-windows` output.
pub fn managed_windows(output: &str) -> (r: Result<Vec<ManagedWindow>, Phase3Error>)
    ensures
        r is Ok <==> managed_windows_of(text_lines(output@)) is Ok,
        r matches Ok(v) ==> managed_windows_of(text_lines(output@)) == Ok::<
            Seq<(Seq<char>, Seq<char>, bool)>,
            (Seq<char>, Seq<char>),
        >(v@.map_values(|w: ManagedWindow| (w.id@, w.name@, w.active))),
        r matches Err(e) ==> managed_windows_of(text_lines(output@)) == Err::<
            Seq<(Seq<char>, Seq<char>, bool)>,
            (Seq<char>, Seq<char>),
        >((e.code@, e.message@)),
{
    let lines = lines_of(output);
    let ghost ls = text_lines(output@);
    let mut out: Vec<ManagedWindow> = Vec::new();
    let mut k: usize = 0;
    proof {
        assert(ls.take(0) =~= Seq::<Seq<char>>::empty());
        assert(out@.map_values(|w: ManagedWindow| (w.id@, w.name@, w.active)) =~= Seq::<
            (Seq<char>, Seq<char>, bool),
        >::empty());
    }
    while k < lines.len()
        invariant
            lines@.map_values(|l: String| l@) == ls,
            ls == text_lines(output@),
            k <= lines@.len(),
            managed_windows_of(ls.take(k as int)) == Ok::<
                Seq<(Seq<char>, Seq<char>, bool)>,
                (Seq<char>, Seq<char>),
            >(out@.map_values(|w: ManagedWindow| (w.id@, w.name@, w.active))),
        decreases lines@.len() - k,
    {
        proof {
            reveal_strlit("1");
        }
        let line = lines[k].as_str();
        assert(line@ == ls[k as int]);
        assert(ls.take(k + 1).drop_last() =~= ls.take(k as int));
        let ghost before = out@.map_values(|w: ManagedWindow| (w.id@, w.name@, w.active));
        let fields = split_text(line, '\t');
        proof {
            crate::text::lemma_split_nonempty(line@, '\t');
            assert(fields@.len() == split_at_char(line@, '\t').len());
            assert(ls.take(k + 1).last() == ls[k as int]);
        }
        if fields.len() < 2 {
            proof {
                assert(managed_window_of(ls[k as int]) == Err::<
                    (Seq<char>, Seq<char>, bool),
                    (Seq<char>, Seq<char>),
                >(("internal"@, "tmux window name missing"@)));
                assert(managed_windows_of(ls.take(k + 1)) is Err);
                lemma_windows_error_persists(ls, k + 1);
            }
            return Err(internal_error("tmux window name missing"));
        }
        if fields.len() < 3 {
            proof {
                lemma_windows_error_persists(ls, k + 1);
            }
            return Err(internal_error("tmux window activity missing"));
        }
        assert(fields@[0]@ == split_at_char(line@, '\t')[0]);
        assert(fields@[1]@ == split_at_char(line@, '\t')[1]);
        assert(fields@[2]@ == split_at_char(line@, '\t')[2]);
        if let Err(error) = validate_window_id(fields[0].as_str()) {
            proof {
                lemma_windows_error_persists(ls, k + 1);
            }
            return Err(error);
        }
        let active = str_eq(fields[2].as_str(), "1");
        out.push(
            ManagedWindow { id: fields[0].clone(), name: fields[1].clone(), active },
        );
        proof {
            assert(out@.map_values(|w: ManagedWindow| (w.id@, w.name@, w.active)) =~= before.push(
                (fields@[0]@, fields@[1]@, active),
            ));
        }
        k = k + 1;
    }
    proof {
        assert(ls.take(lines@.len() as int) =~= ls);
    }
    Ok(out)
}

/// An input frame carries 1 to `MAX_INPUT_BYTES` bytes.
pub fn check_input_size(length: usize) -> (r: Result<(), Phase3Error>)
    ensures
        r is Ok <==> 1 <= length <= MAX_INPUT_BYTES,
        r matches Err(e) ==> e.code@ == "validation"@,
{
    if length == 0 || length > MAX_INPUT_BYTES {
        return Err(validation_error("input frame must contain 1..=16384 bytes"));
    }
    Ok(())
}

/// The Control Mode commands that type `bytes` into a target: one
/// `send-keys -t <target> -H <hex>` line per byte, in order.
pub open spec fn input_text(target: Seq<char>, bytes: Seq<u8>) -> Seq<char>
    decreases bytes.len(),
{
    if bytes.len() == 0 {
        Seq::empty()
    } else {
        input_text(target, bytes.drop_last()) + "send-keys -t "@ + target + " -H "@ + hex_text(
            seq![bytes.last()],
        ) + "\n"@
    }
}

pub fn input_commands(target: &str, bytes: &[u8]) -> (r: String)
    ensures
        r@ == input_text(target@, bytes@),
{
    let mut out = String::new();
    let mut i: usize = 0;
    proof {
        assert(bytes@.take(0) =~= Seq::<u8>::empty());
    }
    while i < bytes.len()
        invariant
            i <= bytes@.len(),
            out@ == input_text(target@, bytes@.take(i as int)),
        decreases bytes@.len() - i,
    {
        let one = [bytes[i]];
        let hex = hex_bytes(&one);
        let ghost before = out@;
        out.append("send-keys -t ");
        out.append(target);
        out.append(" -H ");
        out.append(hex.as_str());
        out.append("\n");
        proof {
            assert(bytes@.take(i + 1).drop_last() =~= bytes@.take(i as int));
            assert(one@ =~= seq![bytes@.take(i + 1).last()]);
            assert(out@ =~= input_text(target@, bytes@.take(i + 1)));
        }
        i = i + 1;
    }
    proof {
        assert(bytes@.take(bytes@.len() as int) =~= bytes@);
    }
    out
}

/// A resize stays within the gateway's bounds.
pub fn check_resize(columns: u16, rows: u16) -> (r: Result<(), Phase3Error>)
    ensures
        r is Ok <==> MIN_COLUMNS <= columns <= MAX_COLUMNS && MIN_ROWS <= rows <= MAX_ROWS,
        r matches Err(e) ==> e.code@ == "validation"@,
{
    if columns < MIN_COLUMNS || columns > MAX_COLUMNS || rows < MIN_ROWS || rows > MAX_ROWS {
        return Err(validation_error("resize is outside the POC bounds"));
    }
    Ok(())
}

/// The tmux arguments that resize a target window.
pub fn resize_arguments(target: &str, columns: u16, rows: u16) -> (r: Vec<String>)
    ensures
        r@.map_values(|a: String| a@) == seq![
            "resize-window"@,
            "-t"@,
            target@,
            "-x"@,
            decimal_text(columns as nat),
            "-y"@,
            decimal_text(rows as nat),
        ],
{
    let mut r: Vec<String> = Vec::new();
    r.push(String::from_str("resize-window"));
    r.push(String::from_str("-t"));
    r.push(String::from_str(target));
    r.push(String::from_str("-x"));
    r.push(decimal(columns as u64));
    r.push(String::from_str("-y"));
    r.push(decimal(rows as u64));
    proof {
        assert(r@.map_values(|a: String| a@) =~= seq![
            "resize-window"@,
            "-t"@,
            target@,
            "-x"@,
            decimal_text(columns as nat),
            "-y"@,
            decimal_text(rows as nat),
        ]);
    }
    r
}

/// The Control Mode command that pauses (`off`) or resumes (`on`) a pane's
/// output.
pub fn refresh_command(pane_id: &str, on: bool) -> (r: String)
    ensures
        r@ == "refresh-client -A '"@ + pane_id@ + (if on { ":on'"@ } else { ":off'"@ }),
{
    let mut command = String::from_str("refresh-client -A '");
    command.append(pane_id);
    if on {
        command.append(":on'");
    } else {
        command.append(":off'");
    }
    command
}

/// The stream of a new attachment and the identifier the next one takes:
/// the attachment and its bootstrap share this connection's next identifier,
/// which saturates at its largest value.
pub fn new_attachment(
    connection_id: &str,
    next_attachment_id: u64,
    project_id: String,
    window_id: String,
    pane_id: String,
) -> (r: (AttachedTerminal, u64))
    ensures
        r.0.connection_id@ == connection_id@,
        r.0.attachment_id == next_attachment_id,
        r.0.bootstrap_id == next_attachment_id,
        r.0.project_id == project_id,
        r.0.window_id == window_id,
        r.0.pane_id == pane_id,
        r.1 == (if next_attachment_id == u64::MAX { next_attachment_id } else { (
        next_attachment_id + 1) as u64 }),
{
    let next = if next_attachment_id == u64::MAX {
        next_attachment_id
    } else {
        next_attachment_id + 1
    };
    (
        AttachedTerminal {
            connection_id: String::from_str(connection_id),
            attachment_id: next_attachment_id,
            bootstrap_id: next_attachment_id,
            project_id,
            window_id,
            pane_id,
        },
        next,
    )
}

/// A stream may start only for the current attachment, before its bootstrap
/// expired.
pub fn check_stream_start(current: Option<&AttachedTerminal>, requested: &AttachedTerminal, expired: bool)
    -> (r: Result<(), Phase3Error>)
    ensures
        r is Ok <==> (current matches Some(c) && same_attachment(*c, *requested) && !expired),
        current is None ==> (r matches Err(e) && e.code@ == "state"@),
        current matches Some(c) && !same_attachment(*c, *requested) ==> (r matches Err(e)
            && e.code@ == "stale_stream"@),
        current matches Some(c) && same_attachment(*c, *requested) && expired ==> (r matches Err(e)
            && e.code@ == "state"@),
{
    let attached = match current {
        Some(attached) => attached,
        None => {
            return Err(state_error("no terminal bootstrap is attached"));
        },
    };
    ensure_current_stream(attached, requested)?;
    if expired {
        return Err(state_error("terminal bootstrap expired before stream start"));
    }
    Ok(())
}

/// Input and resizing go only to the current attachment's started stream.
pub fn check_stream_live(current: Option<&AttachedTerminal>, requested: &AttachedTerminal, started: bool)
    -> (r: Result<(), Phase3Error>)
    ensures
        r is Ok <==> (current matches Some(c) && same_attachment(*c, *requested) && started),
        current is None ==> (r matches Err(e) && e.code@ == "state"@),
        current matches Some(c) && !same_attachment(*c, *requested) ==> (r matches Err(e)
            && e.code@ == "stale_stream"@),
        current matches Some(c) && same_attachment(*c, *requested) && !started ==> (r matches Err(e)
            && e.code@ == "state"@),
{
    let attached = match current {
        Some(attached) => attached,
        None => {
            return Err(state_error("no terminal is attached"));
        },
    };
    ensure_current_stream(attached, requested)?;
    if !started {
        return Err(state_error("terminal stream has not started"));
    }
    Ok(())
}

/// Closing a window or a whole session ends the attachment inside it.
pub fn closes_attachment(current: Option<&AttachedTerminal>, project_id: &str, window_id: Option<&str>)
    -> (r: bool)
    ensures
        r == (current matches Some(c) && c.project_id@ == project_id@ && (window_id matches Some(w)
            ==> c.window_id@ == w@)),
{
    match current {
        None => false,
        Some(attached) => str_eq(attached.project_id.as_str(), project_id) && match window_id {
            Some(window) => str_eq(attached.window_id.as_str(), window),
            None => true,
        },
    }
}

} // verus!
