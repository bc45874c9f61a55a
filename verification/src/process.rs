//! Process identity: a recorded process counts as the same process only with
//! the same boot, start time and executable digest.

use vstd::prelude::*;
use vstd::string::*;

use crate::digest::{hex_sha256, hex_text, sha256_digest};
use crate::error::{CoreError, CoreResult};
use crate::model::{LaunchTransaction, ProcessIdentity};
use crate::rows::opt_view;
use crate::text::{
    is_whitespace, last_char_at, last_char_position, nth_token, parse_u64, parse_u64_str,
    skip_chars, split_whitespace_words, str_eq, trim, trim_str,
};

verus! {

/// A boot identity: at least 16 bytes, hexadecimal digits and `-` only.
pub open spec fn is_boot_id(b: Seq<u8>) -> bool {
    b.len() >= 16 && forall|i: int| 0 <= i < b.len() ==> (crate::text::is_hex(#[trigger] b[i]) || b[i] == 45u8)
}

/// The kernel's boot identity as read, trimmed and checked.
pub fn validate_boot_id(raw: &str) -> (r: CoreResult<String>)
    ensures
        r is Ok <==> is_boot_id(trim(raw@).map_values(|c: char| c as u8)) && vstd::utf8::is_ascii_chars(trim(raw@)),
        r matches Ok(s) ==> s@ == trim(raw@),
        r matches Err(e) ==> e.code@ == "PROCESS_IDENTITY_UNCONFIRMED"@,
{
    let value = trim_str(raw);
    let n = value.unicode_len();
    let mut ok = n >= 16;
    let mut i: usize = 0;
    while i < n
        invariant
            n == value@.len(),
            i <= n,
            ok == (n >= 16 && forall|j: int| 0 <= j < i ==> ('0' <= #[trigger] value@[j] <= '9' || 'a' <= value@[j] <= 'f' || 'A' <= value@[j] <= 'F' || value@[j] == '-')),
        decreases n - i,
    {
        let c = value.get_char(i);
        let good = ('0' <= c && c <= '9') || ('a' <= c && c <= 'f') || ('A' <= c && c <= 'F') || c == '-';
        proof {
            if ok && good {
                assert forall|j: int| 0 <= j < i + 1 implies ('0' <= #[trigger] value@[j] <= '9' || 'a' <= value@[j] <= 'f' || 'A' <= value@[j] <= 'F' || value@[j] == '-') by {
                    if j == i {
                        assert(value@[j] == c);
                    }
                }
            }
        }
        ok = ok && good;
        i = i + 1;
    }
    proof {
        let b = value@.map_values(|c: char| c as u8);
        if ok {
            assert forall|j: int| 0 <= j < value@.len() implies '\0' <= #[trigger] value@[j] <= '\u{7f}' by {
                assert('0' <= value@[j] <= '9' || 'a' <= value@[j] <= 'f' || 'A' <= value@[j] <= 'F' || value@[j] == '-');
            }
            assert forall|j: int| 0 <= j < b.len() implies (crate::text::is_hex(#[trigger] b[j]) || b[j] == 45u8) by {
                assert('0' <= value@[j] <= '9' || 'a' <= value@[j] <= 'f' || 'A' <= value@[j] <= 'F' || value@[j] == '-');
            }
        } else if n >= 16 && vstd::utf8::is_ascii_chars(value@) {
            let j = choose|j: int| 0 <= j < n && !('0' <= #[trigger] value@[j] <= '9' || 'a' <= value@[j] <= 'f' || 'A' <= value@[j] <= 'F' || value@[j] == '-');
            assert(value@[j] <= '\u{7f}');
            assert(b[j] == value@[j] as u8);
            assert(!(crate::text::is_hex(b[j]) || b[j] == 45u8));
        }
    }
    if !ok {
        return Err(CoreError::new("PROCESS_IDENTITY_UNCONFIRMED", "Linux boot identity is invalid"));
    }
    Ok(value.to_string())
}

/// A process's start time in clock ticks, from its `/proc/<pid>/stat` text:
/// the 20th word after the last `)` (field 22 of the record, which starts
/// after the command name in parentheses).
pub open spec fn stat_start_ticks(stat: Seq<char>) -> Option<u64> {
    if exists|p: int| last_char_at(stat, ')', p) {
        let p = choose|p: int| last_char_at(stat, ')', p);
        match nth_token(stat.skip(p + 1), 19) {
            Some(word) => parse_u64(word),
            None => None,
        }
    } else {
        None
    }
}

proof fn lemma_last_char_unique(s: Seq<char>, c: char, p: int, q: int)
    requires
        last_char_at(s, c, p),
        last_char_at(s, c, q),
    ensures
        p == q,
{
    if p < q {
        assert(s[q] != c);
    } else if q < p {
        assert(s[p] != c);
    }
}

pub fn start_ticks_from_stat(stat: &str) -> (r: Option<u64>)
    ensures
        r == stat_start_ticks(stat@),
{
    let closing = match last_char_position(stat, ')') {
        Some(p) => p,
        None => {
            return None;
        },
    };
    proof {
        let q = choose|q: int| last_char_at(stat@, ')', q);
        lemma_last_char_unique(stat@, ')', closing as int, q);
    }
    let n = stat.unicode_len();
    assert(closing < n);
    let rest = skip_chars(stat, closing + 1);
    let words = split_whitespace_words(rest);
    if words.len() <= 19 {
        return None;
    }
    proof {
        assert(words@.map_values(|w: String| w@)[19] == words@[19]@);
    }
    parse_u64_str(words[19].as_str())
}

/// The recorded identity of the runner or Codex process of a transaction,
/// when the transaction was recorded during the current boot with all of
/// pid, start ticks and digest.
pub open spec fn recorded_identity(
    transaction: LaunchTransaction,
    runner: bool,
    boot: Seq<char>,
) -> Option<(u32, u64, Seq<char>)> {
    let pid = if runner { transaction.runner_pid } else { transaction.codex_pid };
    let ticks = if runner { transaction.runner_start_ticks } else { transaction.codex_start_ticks };
    let identity = if runner { opt_view(transaction.runner_identity) } else { opt_view(transaction.codex_identity) };
    if opt_view(transaction.boot_id) != Some(boot) {
        None
    } else if pid is Some && ticks is Some && identity is Some {
        Some((pid->0, ticks->0, identity->0))
    } else {
        None
    }
}

/// The pid to inspect for a recorded process, when there is one to inspect.
pub fn recorded_pid(transaction: &LaunchTransaction, runner: bool, current_boot_id: &str) -> (r:
    Option<u32>)
    ensures
        r == match recorded_identity(*transaction, runner, current_boot_id@) {
            Some(t) => Some(t.0),
            None => None,
        },
{
    let same_boot = match &transaction.boot_id {
        Some(boot) => str_eq(boot.as_str(), current_boot_id),
        None => false,
    };
    if !same_boot {
        return None;
    }
    let (pid, ticks, identity) = if runner {
        (transaction.runner_pid, transaction.runner_start_ticks, transaction.runner_identity.is_some())
    } else {
        (transaction.codex_pid, transaction.codex_start_ticks, transaction.codex_identity.is_some())
    };
    match (pid, ticks) {
        (Some(p), Some(_)) => if identity {
            Some(p)
        } else {
            None
        },
        _ => None,
    }
}

/// Whether the recorded runner (or Codex) process is the process observed at
/// its pid now: same boot, same start ticks, same executable digest. `None`
/// observed means no process has that pid.
pub open spec fn matches_observation(
    transaction: LaunchTransaction,
    runner: bool,
    boot: Seq<char>,
    observed: Option<ProcessIdentity>,
) -> bool {
    match recorded_identity(transaction, runner, boot) {
        Some((pid, ticks, identity)) => match observed {
            Some(o) => o.boot_id@ == boot && o.start_ticks == ticks && o.identity@ == identity,
            None => false,
        },
        None => false,
    }
}

pub fn matches_recorded(
    transaction: &LaunchTransaction,
    runner: bool,
    current_boot_id: &str,
    observed: Option<&ProcessIdentity>,
) -> (r: bool)
    ensures
        r == matches_observation(
            *transaction,
            runner,
            current_boot_id@,
            match observed {
                Some(o) => Some(*o),
                None => None,
            },
        ),
{
    if recorded_pid(transaction, runner, current_boot_id).is_none() {
        return false;
    }
    let (ticks, identity) = if runner {
        (transaction.runner_start_ticks, &transaction.runner_identity)
    } else {
        (transaction.codex_start_ticks, &transaction.codex_identity)
    };
    match (observed, ticks, identity) {
        (Some(o), Some(t), Some(id)) => str_eq(o.boot_id.as_str(), current_boot_id)
            && o.start_ticks == t && str_eq(o.identity.as_str(), id.as_str()),
        _ => false,
    }
}

/// The bytes whose digest identifies a process image: a version tag, the
/// executable's base name, a zero byte, and the executable's content.
pub open spec fn image_digest_input(basename: Seq<u8>, executable: Seq<u8>) -> Seq<u8> {
    "muxlane-process-image-v1"@.map_values(|c: char| c as u8).push(0u8) + basename + seq![0u8] + executable
}

/// The identity digest of a process image.
pub fn process_image_identity(basename: &str, executable: &[u8]) -> (r: String)
    ensures
        r@ == hex_text(sha256_digest(image_digest_input(basename.spec_bytes(), executable@))),
{
    proof {
        reveal_strlit("muxlane-process-image-v1");
    }
    let tag = crate::text::literal_bytes("muxlane-process-image-v1");
    let mut input: Vec<u8> = crate::text::concat_bytes(tag, &[0u8]);
    input = crate::text::concat_bytes(input.as_slice(), basename.as_bytes());
    input = crate::text::concat_bytes(input.as_slice(), &[0u8]);
    input = crate::text::concat_bytes(input.as_slice(), executable);
    proof {
        assert(input@ =~= image_digest_input(basename.spec_bytes(), executable@));
    }
    hex_sha256(input.as_slice())
}

} // verus!
