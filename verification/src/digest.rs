//! Content digests and credential JSON checks.

use vstd::prelude::*;
use vstd::string::*;

use crate::error::{CoreError, CoreResult};

verus! {

/// The SHA-256 digest of a byte string.
pub uninterp spec fn sha256_digest(bytes: Seq<u8>) -> Seq<u8>;

/// `sha2::Sha256::digest`: the SHA-256 digest of `bytes`, whose output size
/// is 32 bytes (`U32`). The digest is a function of the bytes alone; its
/// value is named, not written out.
#[verifier::external_body]
fn sha256(bytes: &[u8]) -> (r: Vec<u8>)
    ensures
        r@ == sha256_digest(bytes@),
        r@.len() == 32,
{
    <sha2::Sha256 as sha2::Digest>::digest(bytes).to_vec()
}

/// The lowercase hexadecimal digit of a value below 16.
pub open spec fn hex_digit(v: int) -> char {
    if v < 10 {
        (48 + v) as char
    } else {
        (87 + v) as char
    }
}

/// Bytes as lowercase hexadecimal text, two digits per byte, high first.
pub open spec fn hex_text(bytes: Seq<u8>) -> Seq<char>
    decreases bytes.len(),
{
    if bytes.len() == 0 {
        Seq::<char>::empty()
    } else {
        hex_text(bytes.drop_last()) + seq![
            hex_digit(bytes.last() as int / 16),
            hex_digit(bytes.last() as int % 16),
        ]
    }
}

fn digit(v: u8) -> (c: char)
    requires
        v < 16,
    ensures
        c == hex_digit(v as int),
{
    if v < 10 {
        (48u8 + v) as char
    } else {
        (87u8 + v) as char
    }
}

/// Bytes as lowercase hexadecimal text.
pub fn hex_bytes(bytes: &[u8]) -> (r: String)
    ensures
        r@ == hex_text(bytes@),
{
    let mut out = String::new();
    let mut i: usize = 0;
    while i < bytes.len()
        invariant
            i <= bytes@.len(),
            out@ == hex_text(bytes@.take(i as int)),
        decreases bytes@.len() - i,
    {
        let b = bytes[i];
        let high = digit(b / 16);
        let low = digit(b % 16);
        proof {
            assert(bytes@.take(i + 1).drop_last() =~= bytes@.take(i as int));
            assert(bytes@.take(i + 1).last() == b);
        }
        out.push(high);
        out.push(low);
        proof {
            assert(out@ =~= hex_text(bytes@.take(i + 1)));
        }
        i = i + 1;
    }
    proof {
        assert(bytes@.take(bytes@.len() as int) =~= bytes@);
    }
    out
}

/// The SHA-256 digest of `bytes` as lowercase hexadecimal text.
pub fn hex_sha256(bytes: &[u8]) -> (r: String)
    ensures
        r@ == hex_text(sha256_digest(bytes@)),
{
    let digest = sha256(bytes);
    hex_bytes(digest.as_slice())
}

/// What parsing bytes as JSON finds: `None` when they are not one complete
/// JSON value, otherwise whether that value is an object.
pub uninterp spec fn json_object_check(bytes: Seq<u8>) -> Option<bool>;

/// `serde_json::from_slice::<serde_json::Value>` and `Value::is_object`:
/// whether the bytes parse as one JSON value, and whether it is an object.
/// The answer depends on the bytes alone; serde_json's grammar is named,
/// not written out.
#[verifier::external_body]
fn json_object(bytes: &[u8]) -> (r: Option<bool>)
    ensures
        r == json_object_check(bytes@),
{
    serde_json::from_slice::<serde_json::Value>(bytes).ok().map(|value| value.is_object())
}

/// A credential file's bytes are accepted only as a JSON object; the result
/// is the hex SHA-256 digest that identifies the credential.
pub fn credential_hash(bytes: &[u8]) -> (r: CoreResult<String>)
    ensures
        r is Ok <==> json_object_check(bytes@) == Some(true),
        r matches Ok(h) ==> h@ == hex_text(sha256_digest(bytes@)),
        r matches Err(e) ==> e.code@ == "INVALID_CREDENTIAL"@,
{
    match json_object(bytes) {
        None => Err(CoreError::new("INVALID_CREDENTIAL", "credential JSON is incomplete or invalid")),
        Some(false) => Err(CoreError::new("INVALID_CREDENTIAL", "credential JSON must be an object")),
        Some(true) => Ok(hex_sha256(bytes)),
    }
}


/// Hex text has two lowercase hex digits per byte; a SHA-256 digest thus
/// reads as 64 of them.
pub proof fn lemma_hex_text_shape(bytes: Seq<u8>)
    ensures
        hex_text(bytes).len() == 2 * bytes.len(),
        forall|i: int| 0 <= i < hex_text(bytes).len() ==> {
            let c = #[trigger] hex_text(bytes)[i];
            ('0' <= c <= '9') || ('a' <= c <= 'f')
        },
    decreases bytes.len(),
{
    if bytes.len() > 0 {
        let d = bytes.drop_last();
        lemma_hex_text_shape(d);
        let b = bytes.last();
        let tail = seq![hex_digit(b as int / 16), hex_digit(b as int % 16)];
        assert forall|i: int| 0 <= i < hex_text(bytes).len() implies {
            let c = #[trigger] hex_text(bytes)[i];
            ('0' <= c <= '9') || ('a' <= c <= 'f')
        } by {
            if i < hex_text(d).len() {
                assert(hex_text(bytes)[i] == hex_text(d)[i]);
            } else {
                assert(hex_text(bytes)[i] == tail[i - hex_text(d).len()]);
            }
        }
    }
}

} // verus!
