//! Small exact helpers over string bytes and characters.

use vstd::prelude::*;
use vstd::string::*;

verus! {

/// `String::push` appends one character.
pub assume_specification[ String::push ](s: &mut String, ch: char)
    ensures
        final(s)@ == old(s)@.push(ch),
;

/// Byte-wise order, as SQLite's `BINARY` collation compares text: the
/// first differing byte decides, and a proper prefix comes first.
pub open spec fn bytes_before(a: Seq<u8>, b: Seq<u8>) -> bool {
    exists|k: int|
        0 <= k <= a.len() && k <= b.len() && #[trigger] a.take(k) == b.take(k) && ((k == a.len() && k
            < b.len()) || (k < a.len() && k < b.len() && a[k] < b[k]))
}

/// Text order by UTF-8 bytes, as SQLite's `BINARY` collation orders it.
pub open spec fn text_before(a: Seq<char>, b: Seq<char>) -> bool {
    bytes_before(vstd::utf8::encode_utf8(a), vstd::utf8::encode_utf8(b))
}

/// Whether `a` comes strictly before `b` in byte order.
pub fn str_before(a: &str, b: &str) -> (r: bool)
    ensures
        r ==> text_before(a@, b@),
{
    let x = a.as_bytes();
    let y = b.as_bytes();
    let mut i: usize = 0;
    while i < x.len() && i < y.len()
        invariant
            x@ == a.spec_bytes(),
            y@ == b.spec_bytes(),
            i <= x@.len(),
            i <= y@.len(),
            forall|j: int| 0 <= j < i ==> x@[j] == y@[j],
        decreases x@.len() - i,
    {
        if x[i] != y[i] {
            let before = x[i] < y[i];
            proof {
                assert(x@.take(i as int) =~= y@.take(i as int));
            }
            return before;
        }
        i = i + 1;
    }
    proof {
        assert(x@.take(i as int) =~= y@.take(i as int));
    }
    x.len() < y.len()
}

/// Equality of two string slices, by their characters.
pub fn str_eq(a: &str, b: &str) -> (r: bool)
    ensures
        r == (a@ == b@),
{
    let x = a.as_bytes();
    let y = b.as_bytes();
    proof {
        vstd::utf8::encode_utf8_decode_utf8(a@);
        vstd::utf8::encode_utf8_decode_utf8(b@);
    }
    if x.len() != y.len() {
        return false;
    }
    let mut i: usize = 0;
    while i < x.len()
        invariant
            x@ == a.spec_bytes(),
            y@ == b.spec_bytes(),
            x@.len() == y@.len(),
            i <= x@.len(),
            forall|j: int| 0 <= j < i ==> x@[j] == y@[j],
        decreases x@.len() - i,
    {
        if x[i] != y[i] {
            return false;
        }
        i = i + 1;
    }
    assert(x@ =~= y@);
    true
}

/// `u8::is_ascii_lowercase`.
pub open spec fn is_lower(b: u8) -> bool {
    97u8 <= b && b <= 122u8
}

/// `u8::is_ascii_uppercase`.
pub open spec fn is_upper(b: u8) -> bool {
    65u8 <= b && b <= 90u8
}

/// `u8::is_ascii_digit`.
pub open spec fn is_digit(b: u8) -> bool {
    48u8 <= b && b <= 57u8
}

/// `u8::is_ascii_alphanumeric`.
pub open spec fn is_alnum(b: u8) -> bool {
    is_lower(b) || is_upper(b) || is_digit(b)
}

/// `u8::is_ascii_hexdigit`.
pub open spec fn is_hex(b: u8) -> bool {
    is_digit(b) || (97u8 <= b && b <= 102u8) || (65u8 <= b && b <= 70u8)
}

pub fn byte_is_lower(b: u8) -> (r: bool)
    ensures
        r == is_lower(b),
{
    97u8 <= b && b <= 122u8
}

pub fn byte_is_digit(b: u8) -> (r: bool)
    ensures
        r == is_digit(b),
{
    48u8 <= b && b <= 57u8
}

pub fn byte_is_alnum(b: u8) -> (r: bool)
    ensures
        r == is_alnum(b),
{
    (97u8 <= b && b <= 122u8) || (65u8 <= b && b <= 90u8) || (48u8 <= b && b <= 57u8)
}

/// `char::is_control`: the Unicode general category Cc.
pub open spec fn is_control(c: char) -> bool {
    (c as u32) <= 0x1f || (0x7f <= (c as u32) && (c as u32) <= 0x9f)
}

pub fn char_is_control(c: char) -> (r: bool)
    ensures
        r == is_control(c),
{
    let v = c as u32;
    v <= 0x1f || (0x7f <= v && v <= 0x9f)
}

/// `char::is_whitespace`: the Unicode `White_Space` property.
pub open spec fn is_whitespace(c: char) -> bool {
    let v = c as u32;
    (0x9 <= v && v <= 0xd) || v == 0x20 || v == 0x85 || v == 0xa0 || v == 0x1680 || (0x2000 <= v
        && v <= 0x200a) || v == 0x2028 || v == 0x2029 || v == 0x202f || v == 0x205f || v == 0x3000
}

pub fn char_is_whitespace(c: char) -> (r: bool)
    ensures
        r == is_whitespace(c),
{
    let v = c as u32;
    (0x9 <= v && v <= 0xd) || v == 0x20 || v == 0x85 || v == 0xa0 || v == 0x1680 || (0x2000 <= v
        && v <= 0x200a) || v == 0x2028 || v == 0x2029 || v == 0x202f || v == 0x205f || v == 0x3000
}

/// A string whose trimmed form is empty: every character is white space.
pub open spec fn is_blank(s: Seq<char>) -> bool {
    forall|i: int| 0 <= i < s.len() ==> is_whitespace(#[trigger] s[i])
}

/// `s.trim().is_empty()`.
pub fn str_is_blank(s: &str) -> (r: bool)
    ensures
        r == is_blank(s@),
{
    let n = s.unicode_len();
    let mut i: usize = 0;
    while i < n
        invariant
            n == s@.len(),
            i <= n,
            forall|j: int| 0 <= j < i ==> is_whitespace(#[trigger] s@[j]),
        decreases n - i,
    {
        if !char_is_whitespace(s.get_char(i)) {
            return false;
        }
        i = i + 1;
    }
    true
}

/// Whether `s` holds a control character.
pub open spec fn has_control(s: Seq<char>) -> bool {
    exists|i: int| 0 <= i < s.len() && is_control(#[trigger] s[i])
}

/// `s.chars().any(char::is_control)`.
pub fn str_has_control(s: &str) -> (r: bool)
    ensures
        r == has_control(s@),
{
    let n = s.unicode_len();
    let mut i: usize = 0;
    while i < n
        invariant
            n == s@.len(),
            i <= n,
            forall|j: int| 0 <= j < i ==> !is_control(#[trigger] s@[j]),
        decreases n - i,
    {
        let c = s.get_char(i);
        if char_is_control(c) {
            assert(is_control(s@[i as int]));
            return true;
        }
        i = i + 1;
    }
    false
}

} // verus!

verus! {

/// `std::str::from_utf8`: the bytes as text when they are valid UTF-8.
#[verifier::external_body]
pub(crate) fn utf8_text(bytes: &[u8]) -> (r: Option<&str>)
    ensures
        r is Some <==> vstd::utf8::valid_utf8(bytes@),
        r matches Some(s) ==> s.spec_bytes() == bytes@,
{
    std::str::from_utf8(bytes).ok()
}

/// The characters of valid UTF-8 text.
pub proof fn lemma_text_chars(s: &str, bytes: Seq<u8>)
    requires
        s.spec_bytes() == bytes,
    ensures
        s@ == vstd::utf8::decode_utf8(bytes),
        vstd::utf8::valid_utf8(bytes),
{
    vstd::utf8::encode_utf8_decode_utf8(s@);
    vstd::utf8::encode_utf8_valid_utf8(s@);
}

/// Leading white space removed.
pub open spec fn trim_start(s: Seq<char>) -> Seq<char>
    decreases s.len(),
{
    if s.len() > 0 && is_whitespace(s[0]) {
        trim_start(s.drop_first())
    } else {
        s
    }
}

/// Trailing white space removed.
pub open spec fn trim_end(s: Seq<char>) -> Seq<char>
    decreases s.len(),
{
    if s.len() > 0 && is_whitespace(s.last()) {
        trim_end(s.drop_last())
    } else {
        s
    }
}

/// `str::trim`.
pub open spec fn trim(s: Seq<char>) -> Seq<char> {
    trim_end(trim_start(s))
}

/// `str::trim`.
pub fn trim_str<'a>(s: &'a str) -> (r: &'a str)
    ensures
        r@ == trim(s@),
{
    let n = s.unicode_len();
    let mut a: usize = 0;
    assert(s@.skip(0) =~= s@);
    while a < n && char_is_whitespace(s.get_char(a))
        invariant
            n == s@.len(),
            a <= n,
            trim_start(s@) == trim_start(s@.skip(a as int)),
        decreases n - a,
    {
        proof {
            assert(s@.skip(a as int).drop_first() =~= s@.skip(a + 1));
        }
        a = a + 1;
    }
    let ghost t = s@.skip(a as int);
    assert(trim_start(t) == t);
    let mut b: usize = n;
    while b > a && char_is_whitespace(s.get_char(b - 1))
        invariant
            n == s@.len(),
            a <= b <= n,
            t == s@.skip(a as int),
            trim_end(t) == trim_end(s@.subrange(a as int, b as int)),
        decreases b - a,
    {
        proof {
            assert(s@.subrange(a as int, b as int).drop_last() =~= s@.subrange(a as int, b - 1));
        }
        b = b - 1;
    }
    proof {
        assert(s@.skip(a as int).take(0) =~= s@.subrange(a as int, a as int));
        assert(t =~= s@.subrange(a as int, n as int));
    }
    s.substring_char(a, b)
}

/// A decimal digit character.
pub open spec fn is_digit_char(c: char) -> bool {
    '0' <= c && c <= '9'
}

/// The value of a string of decimal digits.
pub open spec fn decimal_value(s: Seq<char>) -> nat
    decreases s.len(),
{
    if s.len() == 0 {
        0
    } else {
        decimal_value(s.drop_last()) * 10 + ((s.last() as u32) - 48) as nat
    }
}

/// The digits of an unsigned integer literal: the text without one leading `+`.
pub open spec fn unsigned_digits(s: Seq<char>) -> Seq<char> {
    if s.len() > 0 && s[0] == '+' {
        s.drop_first()
    } else {
        s
    }
}

/// A non-empty string of decimal digits.
pub open spec fn all_digits(d: Seq<char>) -> bool {
    d.len() > 0 && forall|i: int| 0 <= i < d.len() ==> is_digit_char(#[trigger] d[i])
}

/// `str::parse::<u16>`: an optional `+`, then at least one decimal digit,
/// with a value that fits.
pub open spec fn parse_u16(s: Seq<char>) -> Option<u16> {
    if all_digits(unsigned_digits(s)) && decimal_value(unsigned_digits(s)) <= 65535 {
        Some(decimal_value(unsigned_digits(s)) as u16)
    } else {
        None
    }
}

pub proof fn lemma_decimal_value_grows(s: Seq<char>, k: int)
    requires
        0 <= k <= s.len(),
        forall|i: int| 0 <= i < s.len() ==> is_digit_char(#[trigger] s[i]),
    ensures
        decimal_value(s.take(k)) <= decimal_value(s),
    decreases s.len() - k,
{
    if k < s.len() {
        lemma_decimal_value_grows(s, k + 1);
        assert(s.take(k + 1).drop_last() =~= s.take(k));
    } else {
        assert(s.take(k) =~= s);
    }
}

/// `str::parse::<u16>`.
pub fn parse_u16_str(s: &str) -> (r: Option<u16>)
    ensures
        r == parse_u16(s@),
{
    let n = s.unicode_len();
    let has_plus = n > 0 && s.get_char(0) == '+';
    assert(has_plus == (s@.len() > 0 && s@[0] == '+'));
    let start: usize = if has_plus {
        1
    } else {
        0
    };
    let ghost digits = unsigned_digits(s@);
    assert(digits =~= s@.skip(start as int));
    if start >= n {
        return None;
    }
    let mut value: u32 = 0;
    let mut i: usize = start;
    while i < n
        invariant
            n == s@.len(),
            start <= i <= n,
            digits == s@.skip(start as int),
            digits == unsigned_digits(s@),
            forall|j: int| start <= j < i ==> is_digit_char(#[trigger] s@[j]),
            value as nat == decimal_value(digits.take(i - start)),
            value <= 65535,
        decreases n - i,
    {
        let c = s.get_char(i);
        assert(digits[i - start] == c);
        if !('0' <= c && c <= '9') {
            proof {
                let k = i - start;
                assert(!is_digit_char(digits[k]));
                assert(0 <= k < digits.len());
                assert(!(forall|j: int| 0 <= j < digits.len() ==> is_digit_char(#[trigger] digits[j])));
            }
            return None;
        }
        proof {
            assert(digits.take(i - start + 1).drop_last() =~= digits.take(i - start));
            assert(digits.take(i - start + 1).last() == c);
        }
        value = value * 10 + ((c as u32) - 48);
        if value > 65535 {
            proof {
                assert forall|j: int| 0 <= j < i - start + 1 implies is_digit_char(
                    #[trigger] digits[j],
                ) by {
                    assert(digits[j] == s@[start + j]);
                }
                if forall|j: int| 0 <= j < digits.len() ==> is_digit_char(#[trigger] digits[j]) {
                    lemma_decimal_value_grows(digits, i - start + 1);
                    assert(decimal_value(digits) > 65535);
                }
            }
            return None;
        }
        i = i + 1;
    }
    proof {
        assert(digits.take(n - start) =~= digits);
        assert forall|j: int| 0 <= j < digits.len() implies is_digit_char(#[trigger] digits[j]) by {
            assert(digits[j] == s@[start + j]);
        }
    }
    Some(value as u16)
}

/// The characters of `s` without the first `k`.
pub fn skip_chars<'a>(s: &'a str, k: usize) -> (r: &'a str)
    requires
        k <= s@.len(),
    ensures
        r@ == s@.skip(k as int),
{
    let n = s.unicode_len();
    proof {
        assert(s@.subrange(k as int, n as int) =~= s@.skip(k as int));
    }
    s.substring_char(k, n)
}

/// Whether `s` begins with `prefix`.
pub fn starts_with_str(s: &str, prefix: &str) -> (r: bool)
    ensures
        r == (prefix@.len() <= s@.len() && s@.take(prefix@.len() as int) == prefix@),
{
    let n = s.unicode_len();
    let m = prefix.unicode_len();
    if m > n {
        return false;
    }
    let head = s.substring_char(0, m);
    proof {
        assert(s@.subrange(0, m as int) =~= s@.take(m as int));
    }
    str_eq(head, prefix)
}

/// Whether the bytes `b` begin with the bytes `prefix`.
pub open spec fn bytes_start_with(b: Seq<u8>, prefix: Seq<u8>) -> bool {
    prefix.len() <= b.len() && b.take(prefix.len() as int) == prefix
}

pub fn slice_starts_with(b: &[u8], prefix: &[u8]) -> (r: bool)
    ensures
        r == bytes_start_with(b@, prefix@),
{
    if prefix.len() > b.len() {
        return false;
    }
    let mut i: usize = 0;
    while i < prefix.len()
        invariant
            prefix@.len() <= b@.len(),
            i <= prefix@.len(),
            forall|j: int| 0 <= j < i ==> b@[j] == prefix@[j],
        decreases prefix@.len() - i,
    {
        if b[i] != prefix[i] {
            assert(b@.take(prefix@.len() as int)[i as int] != prefix@[i as int]);
            return false;
        }
        i = i + 1;
    }
    assert(b@.take(prefix@.len() as int) =~= prefix@);
    true
}

pub fn slice_eq(a: &[u8], b: &[u8]) -> (r: bool)
    ensures
        r == (a@ == b@),
{
    if a.len() != b.len() {
        return false;
    }
    let r = slice_starts_with(a, b);
    assert(a@.take(b@.len() as int) =~= a@);
    r
}

} // verus!

verus! {

/// The bytes of ASCII text, one per character.
pub open spec fn ascii_bytes(s: Seq<char>) -> Seq<u8> {
    s.map_values(|c: char| c as u8)
}

/// The UTF-8 bytes of an ASCII string are its characters, one byte each.
pub proof fn lemma_ascii_bytes(s: &str)
    requires
        vstd::utf8::is_ascii_chars(s@),
    ensures
        s.spec_bytes() == ascii_bytes(s@),
{
    is_ascii_spec_bytes(s);
    assert(s.spec_bytes() =~= ascii_bytes(s@));
}

/// The concatenation of two byte strings.
pub fn concat_bytes(a: &[u8], b: &[u8]) -> (r: Vec<u8>)
    ensures
        r@ == a@ + b@,
{
    let mut r: Vec<u8> = Vec::new();
    let mut i: usize = 0;
    while i < a.len()
        invariant
            i <= a@.len(),
            r@ == a@.take(i as int),
        decreases a@.len() - i,
    {
        r.push(a[i]);
        proof {
            assert(a@.take(i + 1) =~= a@.take(i as int).push(a@[i as int]));
        }
        i = i + 1;
    }
    let mut j: usize = 0;
    while j < b.len()
        invariant
            j <= b@.len(),
            r@ == a@.take(a@.len() as int) + b@.take(j as int),
        decreases b@.len() - j,
    {
        r.push(b[j]);
        proof {
            assert(b@.take(j + 1) =~= b@.take(j as int).push(b@[j as int]));
            assert(a@.take(a@.len() as int) + b@.take(j + 1) =~= (a@.take(a@.len() as int) + b@.take(
                j as int,
            )).push(b@[j as int]));
        }
        j = j + 1;
    }
    proof {
        assert(a@.take(a@.len() as int) =~= a@);
        assert(b@.take(b@.len() as int) =~= b@);
    }
    r
}

/// The words of `s` between runs of white space (`str::split_whitespace`).
pub open spec fn tokens(s: Seq<char>) -> Seq<Seq<char>>
    decreases s.len(),
{
    if s.len() == 0 {
        Seq::<Seq<char>>::empty()
    } else {
        let t = tokens(s.drop_last());
        let c = s.last();
        if is_whitespace(c) {
            t
        } else if s.len() >= 2 && !is_whitespace(s[s.len() - 2]) {
            t.update(t.len() - 1, t.last().push(c))
        } else {
            t.push(seq![c])
        }
    }
}

pub proof fn lemma_tokens_after_word(s: Seq<char>)
    requires
        s.len() > 0,
        !is_whitespace(s.last()),
    ensures
        tokens(s).len() >= 1,
    decreases s.len(),
{
    if s.len() >= 2 && !is_whitespace(s[s.len() - 2]) {
        lemma_tokens_after_word(s.drop_last());
    }
}

/// The `k`-th word of `s`, if it has one.
pub open spec fn nth_token(s: Seq<char>, k: int) -> Option<Seq<char>> {
    if 0 <= k < tokens(s).len() {
        Some(tokens(s)[k])
    } else {
        None
    }
}

/// `str::split_whitespace`, collected.
pub fn split_whitespace_words(s: &str) -> (r: Vec<String>)
    ensures
        r@.map_values(|w: String| w@) == tokens(s@),
{
    let n = s.unicode_len();
    let mut out: Vec<String> = Vec::new();
    let mut i: usize = 0;
    let mut previous_space = true;
    while i < n
        invariant
            n == s@.len(),
            i <= n,
            out@.map_values(|w: String| w@) == tokens(s@.take(i as int)),
            previous_space == (i == 0 || is_whitespace(s@[i - 1])),
        decreases n - i,
    {
        let c = s.get_char(i);
        let ghost prefix = s@.take(i + 1);
        proof {
            assert(prefix.drop_last() =~= s@.take(i as int));
            assert(prefix.last() == c);
            if i >= 1 {
                assert(prefix[prefix.len() - 2] == s@[i - 1]);
            }
        }
        if char_is_whitespace(c) {
            previous_space = true;
        } else if !previous_space {
            proof {
                lemma_tokens_after_word(s@.take(i as int));
                assert(s@.take(i as int).last() == s@[i - 1]);
            }
            let mut last = out.pop().unwrap();
            last.push(c);
            out.push(last);
            proof {
                assert(out@.map_values(|w: String| w@) =~= tokens(prefix));
            }
            previous_space = false;
        } else {
            let mut word = String::new();
            word.push(c);
            out.push(word);
            proof {
                assert(word@ =~= seq![c]);
                assert(out@.map_values(|w: String| w@) =~= tokens(prefix));
            }
            previous_space = false;
        }
        i = i + 1;
    }
    proof {
        assert(s@.take(n as int) =~= s@);
    }
    out
}

} // verus!

verus! {

/// The bytes of ASCII text.
pub fn literal_bytes(s: &str) -> (r: &[u8])
    requires
        vstd::utf8::is_ascii_chars(s@),
    ensures
        r@ == ascii_bytes(s@),
{
    proof {
        lemma_ascii_bytes(s);
    }
    s.as_bytes()
}

/// `str::parse::<u64>`: an optional `+`, then at least one decimal digit,
/// with a value that fits.
pub open spec fn parse_u64(s: Seq<char>) -> Option<u64> {
    if all_digits(unsigned_digits(s)) && decimal_value(unsigned_digits(s)) <= u64::MAX {
        Some(decimal_value(unsigned_digits(s)) as u64)
    } else {
        None
    }
}

/// `str::parse::<u64>`.
pub fn parse_u64_str(s: &str) -> (r: Option<u64>)
    ensures
        r == parse_u64(s@),
{
    let n = s.unicode_len();
    let has_plus = n > 0 && s.get_char(0) == '+';
    assert(has_plus == (s@.len() > 0 && s@[0] == '+'));
    let start: usize = if has_plus {
        1
    } else {
        0
    };
    let ghost digits = unsigned_digits(s@);
    assert(digits =~= s@.skip(start as int));
    if start >= n {
        return None;
    }
    let mut value: u128 = 0;
    let mut i: usize = start;
    while i < n
        invariant
            n == s@.len(),
            start <= i <= n,
            digits == s@.skip(start as int),
            digits == unsigned_digits(s@),
            forall|j: int| start <= j < i ==> is_digit_char(#[trigger] s@[j]),
            value as nat == decimal_value(digits.take(i - start)),
            value <= u64::MAX,
        decreases n - i,
    {
        let c = s.get_char(i);
        assert(digits[i - start] == c);
        if !('0' <= c && c <= '9') {
            proof {
                let k = i - start;
                assert(!is_digit_char(digits[k]));
                assert(0 <= k < digits.len());
                assert(!(forall|j: int| 0 <= j < digits.len() ==> is_digit_char(#[trigger] digits[j])));
            }
            return None;
        }
        proof {
            assert(digits.take(i - start + 1).drop_last() =~= digits.take(i - start));
            assert(digits.take(i - start + 1).last() == c);
        }
        value = value * 10 + ((c as u32) - 48) as u128;
        if value > 18446744073709551615u128 {
            proof {
                assert forall|j: int| 0 <= j < i - start + 1 implies is_digit_char(
                    #[trigger] digits[j],
                ) by {
                    assert(digits[j] == s@[start + j]);
                }
                if forall|j: int| 0 <= j < digits.len() ==> is_digit_char(#[trigger] digits[j]) {
                    lemma_decimal_value_grows(digits, i - start + 1);
                    assert(decimal_value(digits) > u64::MAX);
                }
            }
            return None;
        }
        i = i + 1;
    }
    proof {
        assert(digits.take(n - start) =~= digits);
        assert forall|j: int| 0 <= j < digits.len() implies is_digit_char(#[trigger] digits[j]) by {
            assert(digits[j] == s@[start + j]);
        }
    }
    Some(value as u64)
}

/// `p` is the position of the last `c` in `s`.
pub open spec fn last_char_at(s: Seq<char>, c: char, p: int) -> bool {
    0 <= p < s.len() && s[p] == c && forall|j: int| p < j < s.len() ==> s[j] != c
}

/// The position of the last `c` in `s` (`str::rfind`, counted in characters).
pub fn last_char_position(s: &str, c: char) -> (r: Option<usize>)
    ensures
        r matches Some(p) ==> last_char_at(s@, c, p as int),
        r is None ==> forall|j: int| 0 <= j < s@.len() ==> s@[j] != c,
{
    let n = s.unicode_len();
    let mut i: usize = n;
    while i > 0
        invariant
            n == s@.len(),
            i <= n,
            forall|j: int| i <= j < n ==> s@[j] != c,
        decreases i,
    {
        if s.get_char(i - 1) == c {
            return Some(i - 1);
        }
        i = i - 1;
    }
    None
}

/// `char::to_ascii_lowercase`.
pub open spec fn lower_char(c: char) -> char {
    if 'A' <= c && c <= 'Z' {
        ((c as u32) + 32) as char
    } else {
        c
    }
}

/// `str::to_ascii_lowercase`.
pub open spec fn lower_ascii(s: Seq<char>) -> Seq<char> {
    s.map_values(|c: char| lower_char(c))
}

pub fn ascii_lowercase(s: &str) -> (r: String)
    ensures
        r@ == lower_ascii(s@),
{
    let n = s.unicode_len();
    let mut out = String::new();
    let mut i: usize = 0;
    while i < n
        invariant
            n == s@.len(),
            i <= n,
            out@ == lower_ascii(s@.take(i as int)),
        decreases n - i,
    {
        let c = s.get_char(i);
        let l = if 'A' <= c && c <= 'Z' {
            ((c as u32) + 32) as u8 as char
        } else {
            c
        };
        proof {
            if 'A' <= c && c <= 'Z' {
                assert(((c as u32) + 32) as u8 as char == ((c as u32) + 32) as char);
            }
            assert(lower_ascii(s@.take(i + 1)) =~= lower_ascii(s@.take(i as int)).push(lower_char(c)));
        }
        out.push(l);
        i = i + 1;
    }
    proof {
        assert(s@.take(n as int) =~= s@);
    }
    out
}

/// Whether `needle` occurs in `haystack` (`str::contains`).
pub open spec fn has_substring(haystack: Seq<char>, needle: Seq<char>) -> bool {
    exists|i: int| 0 <= i <= haystack.len() - needle.len() && #[trigger] haystack.subrange(i, i + needle.len()) == needle
}

pub fn contains_text(haystack: &str, needle: &str) -> (r: bool)
    ensures
        r == has_substring(haystack@, needle@),
{
    let n = haystack.unicode_len();
    let m = needle.unicode_len();
    if m > n {
        proof {
            assert forall|i: int| !(0 <= i <= haystack@.len() - needle@.len() && #[trigger] haystack@.subrange(i, i + needle@.len()) == needle@) by {}
        }
        return false;
    }
    if m == 0 {
        assert(haystack@.subrange(0int, 0int + needle@.len()) =~= needle@);
        return true;
    }
    let mut i: usize = 0;
    while i <= n - m
        invariant
            n == haystack@.len(),
            m == needle@.len(),
            0 < m <= n,
            i <= n - m + 1,
            forall|j: int| 0 <= j < i ==> #[trigger] haystack@.subrange(j, j + m) != needle@,
        decreases n - m + 1 - i,
    {
        let window = haystack.substring_char(i, i + m);
        if str_eq(window, needle) {
            return true;
        }
        i = i + 1;
    }
    false
}

/// The pieces of `s` between occurrences of `sep`, empty pieces included
/// (`str::split` with a character).
pub open spec fn split_at_char(s: Seq<char>, sep: char) -> Seq<Seq<char>>
    decreases s.len(),
{
    if s.len() == 0 {
        seq![Seq::<char>::empty()]
    } else {
        let rest = split_at_char(s.drop_last(), sep);
        if s.last() == sep {
            rest.push(Seq::<char>::empty())
        } else {
            rest.update(rest.len() - 1, rest.last().push(s.last()))
        }
    }
}

pub proof fn lemma_split_nonempty(s: Seq<char>, sep: char)
    ensures
        split_at_char(s, sep).len() >= 1,
    decreases s.len(),
{
    if s.len() > 0 {
        lemma_split_nonempty(s.drop_last(), sep);
    }
}

/// `s.split(sep)`, collected.
pub fn split_text(s: &str, sep: char) -> (r: Vec<String>)
    ensures
        r@.map_values(|p: String| p@) == split_at_char(s@, sep),
{
    let n = s.unicode_len();
    let mut done: Vec<String> = Vec::new();
    let mut current = String::new();
    let mut i: usize = 0;
    proof {
        assert(s@.take(0) =~= Seq::<char>::empty());
        assert(done@.map_values(|p: String| p@).push(current@) =~= seq![Seq::<char>::empty()]);
    }
    while i < n
        invariant
            n == s@.len(),
            i <= n,
            split_at_char(s@.take(i as int), sep) == done@.map_values(|p: String| p@).push(current@),
        decreases n - i,
    {
        let c = s.get_char(i);
        let ghost before = split_at_char(s@.take(i as int), sep);
        proof {
            assert(s@.take(i + 1).drop_last() =~= s@.take(i as int));
            assert(s@.take(i + 1).last() == c);
        }
        if c == sep {
            let piece = current;
            done.push(piece);
            current = String::new();
            proof {
                assert(done@.map_values(|p: String| p@) =~= before);
                assert(split_at_char(s@.take(i + 1), sep) =~= done@.map_values(|p: String| p@).push(
                    current@,
                ));
            }
        } else {
            current.push(c);
            proof {
                assert(split_at_char(s@.take(i + 1), sep) =~= done@.map_values(|p: String| p@).push(
                    current@,
                ));
            }
        }
        i = i + 1;
    }
    proof {
        assert(s@.take(n as int) =~= s@);
    }
    done.push(current);
    proof {
        assert(done@.map_values(|p: String| p@) =~= split_at_char(s@, sep));
    }
    done
}

/// A line without the carriage return that ended it.
pub open spec fn strip_cr(line: Seq<char>) -> Seq<char> {
    if line.len() > 0 && line.last() == '\r' {
        line.drop_last()
    } else {
        line
    }
}

/// `str::lines`: the pieces between newlines, each piece that a newline ends
/// without its carriage return, and no empty line after a final newline.
pub open spec fn text_lines(s: Seq<char>) -> Seq<Seq<char>> {
    let p = split_at_char(s, '\n');
    let n = if p.last().len() == 0 {
        p.len() - 1
    } else {
        p.len() as int
    };
    Seq::new(
        n as nat,
        |i: int|
            if i < p.len() - 1 {
                strip_cr(p[i])
            } else {
                p[i]
            },
    )
}

/// `s.lines()`, collected.
pub fn lines_of(s: &str) -> (r: Vec<String>)
    ensures
        r@.map_values(|l: String| l@) == text_lines(s@),
{
    let pieces = split_text(s, '\n');
    let ghost p = split_at_char(s@, '\n');
    proof {
        lemma_split_nonempty(s@, '\n');
    }
    let total = pieces.len();
    assert(pieces@[total - 1]@ == p.last());
    let count = if pieces[total - 1].unicode_len() == 0 {
        total - 1
    } else {
        total
    };
    let mut out: Vec<String> = Vec::new();
    let mut i: usize = 0;
    while i < count
        invariant
            pieces@.map_values(|q: String| q@) == p,
            p == split_at_char(s@, '\n'),
            total == p.len(),
            total >= 1,
            count <= total,
            count == (if p.last().len() == 0 { p.len() - 1 } else { p.len() as int }),
            i <= count,
            out@.len() == i,
            forall|j: int| 0 <= j < i ==> #[trigger] out@[j]@ == text_lines(s@)[j],
        decreases count - i,
    {
        assert(pieces@[i as int]@ == p[i as int]);
        let ghost tl = text_lines(s@);
        assert(tl.len() == count);
        assert(tl[i as int] == (if i < p.len() - 1 { strip_cr(p[i as int]) } else { p[i as int] }));
        let piece = pieces[i].as_str();
        let m = piece.unicode_len();
        if i + 1 < total && m > 0 && piece.get_char(m - 1) == '\r' {
            let line = piece.substring_char(0, m - 1);
            proof {
                assert(line@ =~= strip_cr(p[i as int]));
            }
            out.push(line.to_string());
        } else {
            proof {
                if i + 1 < total {
                    assert(strip_cr(p[i as int]) == p[i as int]);
                }
            }
            out.push(piece.to_string());
        }
        assert(out@[i as int]@ == tl[i as int]);
        i = i + 1;
    }
    proof {
        assert(out@.map_values(|l: String| l@) =~= text_lines(s@));
    }
    out
}

/// The first position of `c` in `s`.
pub open spec fn first_index_of(s: Seq<char>, c: char) -> Option<int>
    decreases s.len(),
{
    if s.len() == 0 {
        None
    } else if s[0] == c {
        Some(0)
    } else {
        match first_index_of(s.drop_first(), c) {
            Some(k) => Some(k + 1),
            None => None,
        }
    }
}

proof fn lemma_first_index(s: Seq<char>, c: char, i: int)
    requires
        0 <= i <= s.len(),
        forall|j: int| 0 <= j < i ==> s[j] != c,
        i < s.len() ==> s[i] == c,
    ensures
        first_index_of(s, c) == (if i < s.len() { Some(i) } else { None::<int> }),
    decreases i,
{
    if i > 0 {
        lemma_first_index(s.drop_first(), c, i - 1);
    }
}

/// Where `c` first occurs in `s`, counted in characters.
pub fn find_char(s: &str, c: char) -> (r: Option<usize>)
    ensures
        match r {
            Some(k) => first_index_of(s@, c) == Some(k as int),
            None => first_index_of(s@, c) is None,
        },
        r matches Some(k) ==> k < s@.len() && s@[k as int] == c,
{
    let n = s.unicode_len();
    let mut i: usize = 0;
    while i < n && s.get_char(i) != c
        invariant
            n == s@.len(),
            i <= n,
            forall|j: int| 0 <= j < i ==> s@[j] != c,
        decreases n - i,
    {
        i = i + 1;
    }
    proof {
        lemma_first_index(s@, c, i as int);
    }
    if i < n {
        Some(i)
    } else {
        None
    }
}

/// The decimal digits of a number, most significant first, with no leading
/// zero (`0` for zero).
pub open spec fn decimal_text(n: nat) -> Seq<char>
    decreases n,
{
    if n < 10 {
        seq![(48 + n) as char]
    } else {
        decimal_text(n / 10).push((48 + n % 10) as char)
    }
}

/// A number in decimal, as `to_string` writes it.
pub fn decimal(n: u64) -> (r: String)
    ensures
        r@ == decimal_text(n as nat),
    decreases n,
{
    let digit = char_of_digit((n % 10) as u8);
    if n < 10 {
        let mut r = String::new();
        r.push(digit);
        proof {
            assert(r@ =~= decimal_text(n as nat));
        }
        r
    } else {
        let mut r = decimal(n / 10);
        r.push(digit);
        proof {
            assert(r@ =~= decimal_text(n as nat));
        }
        r
    }
}

fn char_of_digit(d: u8) -> (c: char)
    requires
        d < 10,
    ensures
        c == (48 + d) as char,
{
    if d == 0 { '0' }
    else if d == 1 { '1' }
    else if d == 2 { '2' }
    else if d == 3 { '3' }
    else if d == 4 { '4' }
    else if d == 5 { '5' }
    else if d == 6 { '6' }
    else if d == 7 { '7' }
    else if d == 8 { '8' }
    else { '9' }
}

} // verus!
