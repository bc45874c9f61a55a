//! The desktop host's fixed runtime surface: the data-plane event, its
//! bounds, the environment checks it reports, and the window close choices.

use vstd::prelude::*;
use vstd::string::*;

use crate::text::{lemma_text_chars, str_eq, trim, trim_str, utf8_text};

verus! {

/// The event that carries data-plane frames to the desktop view.
pub const EVENT_NAME: &'static str = "muxlane-terminal-frame";

/// The most data-plane requests that may wait for an answer at once.
pub const MAX_PENDING: usize = 32;

/// The most output read from one fixed CLI invocation.
pub const MAX_CLI_OUTPUT: u64 = 1048576;

pub const RESPONSE_TIMEOUT_SECONDS: u64 = 5;

pub const PROBE_TIMEOUT_SECONDS: u64 = 5;

pub const CONTROL_TIMEOUT_SECONDS: u64 = 60;

/// What the host reports of one WSL component.
#[derive(Debug, Clone, PartialEq, Eq)]
pub struct EnvironmentCheck {
    pub key: &'static str,
    pub status: &'static str,
    pub version: Option<String>,
    pub suggestion: Option<&'static str>,
}

/// The version a probe reports: the trimmed first line of its UTF-8 output,
/// when that is not empty.
pub open spec fn probe_version(stdout: Seq<u8>) -> Option<Seq<char>> {
    if vstd::utf8::valid_utf8(stdout) {
        let v = trim(first_line_of(vstd::utf8::decode_utf8(stdout)));
        if v.len() > 0 {
            Some(v)
        } else {
            None
        }
    } else {
        None
    }
}

/// The first line of text, found by scanning: up to the first newline, less
/// one carriage return before it.
pub open spec fn first_line_of(t: Seq<char>) -> Seq<char> {
    let upto = t.take(newline_index(t));
    if upto.len() > 0 && upto.last() == '\r' {
        upto.drop_last()
    } else {
        upto
    }
}

/// The index of the first newline, or the length when there is none.
pub open spec fn newline_index(t: Seq<char>) -> int
    decreases t.len(),
{
    if t.len() == 0 {
        0
    } else if t[0] == '\n' {
        0
    } else {
        1 + newline_index(t.drop_first())
    }
}

proof fn lemma_newline_index_bounds(t: Seq<char>)
    ensures
        0 <= newline_index(t) <= t.len(),
    decreases t.len(),
{
    if t.len() > 0 && t[0] != '\n' {
        lemma_newline_index_bounds(t.drop_first());
    }
}

/// The first line ends at the first newline: none comes before that index,
/// and the index is a newline unless the text has none.
pub proof fn lemma_newline_index_is_first(t: Seq<char>)
    ensures
        0 <= newline_index(t) <= t.len(),
        forall|i: int| 0 <= i < newline_index(t) ==> #[trigger] t[i] != '\n',
        newline_index(t) < t.len() ==> t[newline_index(t)] == '\n',
    decreases t.len(),
{
    if t.len() > 0 && t[0] != '\n' {
        let rest = t.drop_first();
        lemma_newline_index_is_first(rest);
        assert forall|i: int| 0 <= i < newline_index(t) implies #[trigger] t[i] != '\n' by {
            if i > 0 {
                assert(t[i] == rest[i - 1]);
            }
        }
        if newline_index(t) < t.len() {
            assert(t[newline_index(t)] == rest[newline_index(rest)]);
        }
    }
}

fn first_line_text(t: &str) -> (r: &str)
    ensures
        r@ == first_line_of(t@),
{
    let n = t.unicode_len();
    let mut i: usize = 0;
    proof {
        assert(t@.skip(0) =~= t@);
        lemma_newline_index_bounds(t@);
    }
    while i < n && t.get_char(i) != '\n'
        invariant
            n == t@.len(),
            i <= n,
            newline_index(t@) == i + newline_index(t@.skip(i as int)),
        decreases n - i,
    {
        proof {
            assert(t@.skip(i as int).drop_first() =~= t@.skip(i + 1));
        }
        i = i + 1;
    }
    proof {
        if i < n {
            assert(t@.skip(i as int)[0] == '\n');
        } else {
            assert(t@.skip(i as int).len() == 0);
        }
        assert(newline_index(t@) == i);
    }
    let upto = t.substring_char(0, i);
    proof {
        assert(t@.subrange(0, i as int) =~= t@.take(i as int));
    }
    if i > 0 && upto.get_char(i - 1) == '\r' {
        let r = upto.substring_char(0, i - 1);
        proof {
            assert(upto@.subrange(0, i - 1) =~= upto@.drop_last());
        }
        r
    } else {
        upto
    }
}

/// The check of one component: ready with its reported version when the
/// probe succeeded, otherwise unavailable with a fixed suggestion.
pub fn environment_check(key: &'static str, succeeded: bool, stdout: &[u8]) -> (r: EnvironmentCheck)
    ensures
        r.key == key,
        succeeded ==> r.status@ == "ready"@ && r.suggestion is None && match r.version {
            Some(v) => probe_version(stdout@) == Some(v@),
            None => probe_version(stdout@) is None,
        },
        !succeeded ==> r.status@ == "unavailable"@ && r.version is None && r.suggestion is Some,
{
    if !succeeded {
        return EnvironmentCheck {
            key,
            status: "unavailable",
            version: None,
            suggestion: Some("请在默认 WSL 发行版安装并确认该组件可从 PATH 访问。"),
        };
    }
    let version = match utf8_text(stdout) {
        Some(text) => {
            proof {
                lemma_text_chars(text, stdout@);
            }
            let line = trim_str(first_line_text(text));
            if line.unicode_len() > 0 {
                Some(line.to_string())
            } else {
                None
            }
        },
        None => None,
    };
    EnvironmentCheck { key, status: "ready", version, suggestion: None }
}

/// What the user chose when the main window was asked to close.
#[derive(Debug, Clone, Copy, PartialEq, Eq, Structural)]
pub enum CloseAction {
    /// Hide the window and keep the runtime running.
    Background,
    /// Exit the desktop host.
    Exit,
    /// Keep the window open.
    Cancel,
}

pub fn close_action(action: &str) -> (r: Result<CloseAction, String>)
    ensures
        action@ == "background"@ ==> r == Ok::<CloseAction, String>(CloseAction::Background),
        action@ == "exit"@ ==> r == Ok::<CloseAction, String>(CloseAction::Exit),
        action@ == "cancel"@ ==> r == Ok::<CloseAction, String>(CloseAction::Cancel),
        action@ != "background"@ && action@ != "exit"@ && action@ != "cancel"@ ==> (r matches Err(m)
            && m@ == "close action is invalid"@),
{
    proof {
        reveal_strlit("background");
        reveal_strlit("exit");
        reveal_strlit("cancel");
        assert("background"@.len() == 10);
        assert("exit"@.len() == 4);
        assert("cancel"@.len() == 6);
    }
    if str_eq(action, "background") {
        Ok(CloseAction::Background)
    } else if str_eq(action, "exit") {
        Ok(CloseAction::Exit)
    } else if str_eq(action, "cancel") {
        Ok(CloseAction::Cancel)
    } else {
        Err(String::from_str("close action is invalid"))
    }
}

} // verus!
