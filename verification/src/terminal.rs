//! Managed tmux terminals: the identifiers that may reach tmux, the exact
//! commands a terminal is created with, and what is read back.

use vstd::prelude::*;
use vstd::string::*;

use crate::error::{CoreError, CoreResult};
use crate::layout::{is_valid_id, validate_id};
use crate::model::{Project, Terminal};
use crate::rows::is_storage_failure;
use crate::storage::{read_from, fresh_id, grown, is_terminal_insert, now, storage_or, Storage};
use crate::text::{byte_is_alnum, is_alnum, lemma_text_chars, str_eq, trim, trim_str, utf8_text};

verus! {

/// The tmux socket of managed terminals.
pub const TMUX_SOCKET: &'static str = "muxlane-runtime";

/// The most history bytes handed back for one terminal.
pub const MAX_HISTORY_BYTES: usize = 1048576;

/// A tmux window identity: `@` followed by at least one decimal digit.
pub open spec fn is_window_identity(b: Seq<u8>) -> bool {
    b.len() >= 2 && b[0] == 64u8 && forall|i: int| 1 <= i < b.len() ==> crate::text::is_digit(#[trigger] b[i])
}

/// Accepts a window identity as tmux reports it.
pub fn validate_window_id(value: &str) -> (r: CoreResult<()>)
    ensures
        r is Ok <==> is_window_identity(value.spec_bytes()),
        r matches Err(e) ==> e.code@ == "INTERNAL_ERROR"@,
{
    let b = value.as_bytes();
    if b.len() < 2 || b[0] != 64u8 {
        return Err(CoreError::new("INTERNAL_ERROR", "tmux returned an invalid window identity"));
    }
    let mut i: usize = 1;
    while i < b.len()
        invariant
            b@ == value.spec_bytes(),
            1 <= i <= b@.len(),
            forall|j: int| 1 <= j < i ==> crate::text::is_digit(#[trigger] b@[j]),
        decreases b@.len() - i,
    {
        if !crate::text::byte_is_digit(b[i]) {
            return Err(CoreError::new("INTERNAL_ERROR", "tmux returned an invalid window identity"));
        }
        i = i + 1;
    }
    Ok(())
}

/// A terminal name: 1 to 64 bytes of ASCII letters, digits, space, `-`, `_`.
pub open spec fn is_terminal_name(b: Seq<u8>) -> bool {
    0 < b.len() <= 64 && forall|i: int| 0 <= i < b.len() ==> (is_alnum(#[trigger] b[i]) || b[i] == 32u8 || b[i] == 45u8 || b[i] == 95u8)
}

pub fn validate_terminal_name(value: &str) -> (r: CoreResult<()>)
    ensures
        r is Ok <==> is_terminal_name(value.spec_bytes()),
        r matches Err(e) ==> e.code@ == "INVALID_REQUEST"@,
{
    let b = value.as_bytes();
    let n = b.len();
    if n == 0 || n > 64 {
        return Err(CoreError::new("INVALID_REQUEST", "Terminal name is invalid"));
    }
    let mut i: usize = 0;
    while i < n
        invariant
            b@ == value.spec_bytes(),
            n == b@.len(),
            i <= n,
            forall|j: int| 0 <= j < i ==> (is_alnum(#[trigger] b@[j]) || b@[j] == 32u8 || b@[j] == 45u8 || b@[j] == 95u8),
        decreases n - i,
    {
        let x = b[i];
        if !(byte_is_alnum(x) || x == 32u8 || x == 45u8 || x == 95u8) {
            return Err(CoreError::new("INVALID_REQUEST", "Terminal name is invalid"));
        }
        i = i + 1;
    }
    Ok(())
}

fn strings(items: &[&str]) -> (r: Vec<String>)
    ensures
        r@.len() == items@.len(),
        forall|i: int| 0 <= i < items@.len() ==> #[trigger] r@[i]@ == items@[i]@,
{
    let mut out: Vec<String> = Vec::new();
    let mut i: usize = 0;
    while i < items.len()
        invariant
            i <= items@.len(),
            out@.len() == i,
            forall|j: int| 0 <= j < i ==> #[trigger] out@[j]@ == items@[j]@,
        decreases items@.len() - i,
    {
        out.push(String::from_str(items[i]));
        i = i + 1;
    }
    out
}

/// The texts of a list of strings.
pub open spec fn texts(v: Seq<String>) -> Seq<Seq<char>> {
    v.map_values(|s: String| s@)
}

/// The tmux arguments that start a launch's managed runner: a new window in
/// the project's session when it exists, else a new session; the window is
/// named `codex`, gets the runtime root in its environment, and runs the
/// daemon executable as `managed-runner` for the transaction. tmux prints the
/// new window's identity.
pub open spec fn runner_arguments(
    session_exists: bool,
    session: Seq<char>,
    root: Seq<char>,
    executable: Seq<char>,
    transaction_id: Seq<char>,
) -> Seq<Seq<char>> {
    seq!["-L"@, "muxlane-runtime"@]
        + (if session_exists { seq!["new-window"@] } else { seq!["new-session"@] })
        + seq!["-d"@, "-P"@, "-F"@, "#{window_id}"@]
        + (if session_exists { seq!["-t"@] } else { seq!["-s"@] })
        + seq![
            session,
            "-n"@,
            "codex"@,
            "-e"@,
            "MUXLANE_DATA_DIR="@ + root,
            "--"@,
            executable,
            "managed-runner"@,
            "--transaction-id"@,
            transaction_id,
        ]
}

pub fn runner_command(
    session_exists: bool,
    session: &str,
    root: &str,
    executable: &str,
    transaction_id: &str,
) -> (r: Vec<String>)
    ensures
        texts(r@) == runner_arguments(session_exists, session@, root@, executable@, transaction_id@),
{
    let mut environment = String::from_str("MUXLANE_DATA_DIR=");
    environment.append(root);
    let create = if session_exists { "new-window" } else { "new-session" };
    let target = if session_exists { "-t" } else { "-s" };
    let items = [
        "-L",
        TMUX_SOCKET,
        create,
        "-d",
        "-P",
        "-F",
        "#{window_id}",
        target,
        session,
        "-n",
        "codex",
        "-e",
        environment.as_str(),
        "--",
        executable,
        "managed-runner",
        "--transaction-id",
        transaction_id,
    ];
    let r = strings(&items);
    proof {
        assert(texts(r@) =~= runner_arguments(session_exists, session@, root@, executable@, transaction_id@));
    }
    r
}

/// The tmux arguments that open an auxiliary window in a managed session.
pub open spec fn auxiliary_arguments(session: Seq<char>, name: Seq<char>) -> Seq<Seq<char>> {
    seq!["-L"@, "muxlane-runtime"@, "new-window"@, "-d"@, "-P"@, "-F"@, "#{window_id}"@, "-t"@, session, "-n"@, name]
}

pub fn auxiliary_command(session: &str, name: &str) -> (r: Vec<String>)
    ensures
        texts(r@) == auxiliary_arguments(session@, name@),
{
    let items = ["-L", TMUX_SOCKET, "new-window", "-d", "-P", "-F", "#{window_id}", "-t", session, "-n", name];
    let r = strings(&items);
    proof {
        assert(texts(r@) =~= auxiliary_arguments(session@, name@));
    }
    r
}

/// The window identity tmux printed for a new window: UTF-8, trimmed, and a
/// valid identity.
pub open spec fn printed_window(stdout: Seq<u8>) -> Option<Seq<char>> {
    if vstd::utf8::valid_utf8(stdout) && is_window_identity(
        vstd::utf8::encode_utf8(trim(vstd::utf8::decode_utf8(stdout))),
    ) {
        Some(trim(vstd::utf8::decode_utf8(stdout)))
    } else {
        None
    }
}

pub fn window_from_output(stdout: &[u8]) -> (r: CoreResult<String>)
    ensures
        r is Ok <==> printed_window(stdout@) is Some,
        r matches Ok(w) ==> printed_window(stdout@) == Some(w@),
        r matches Err(e) ==> e.code@ == "INTERNAL_ERROR"@,
{
    let text = match utf8_text(stdout) {
        Some(text) => text,
        None => {
            return Err(CoreError::new("INTERNAL_ERROR", "tmux returned invalid metadata"));
        },
    };
    proof {
        lemma_text_chars(text, stdout@);
    }
    let window = trim_str(text);
    validate_window_id(window)?;
    Ok(window.to_string())
}

/// The newest history a terminal hands back: at most the last
/// `MAX_HISTORY_BYTES` bytes of what tmux captured.
pub fn history_tail(captured: &[u8]) -> (r: Vec<u8>)
    ensures
        captured@.len() <= MAX_HISTORY_BYTES ==> r@ == captured@,
        captured@.len() > MAX_HISTORY_BYTES ==> r@ == captured@.skip(captured@.len() - MAX_HISTORY_BYTES),
{
    let start = if captured.len() > MAX_HISTORY_BYTES {
        captured.len() - MAX_HISTORY_BYTES
    } else {
        0
    };
    let r = crate::gateway::slice_suffix(captured, start);
    proof {
        assert(captured@.skip(0) =~= captured@);
    }
    r
}

/// A new running terminal record.
pub fn new_terminal(
    terminal_id: String,
    project_id: &str,
    kind: &str,
    display_name: &str,
    window_id: String,
    created_at: i64,
) -> (r: Terminal)
    ensures
        r.terminal_id == terminal_id,
        r.project_id@ == project_id@,
        r.kind@ == kind@,
        r.display_name@ == display_name@,
        r.tmux_window_identity == window_id,
        r.lifecycle_status@ == "running"@,
        r.created_at == created_at,
        r.closed_at is None,
{
    Terminal {
        terminal_id,
        project_id: String::from_str(project_id),
        kind: String::from_str(kind),
        display_name: String::from_str(display_name),
        tmux_window_identity: window_id,
        lifecycle_status: String::from_str("running"),
        created_at,
        closed_at: None,
    }
}

/// The text that `String::from_utf8_lossy` makes of bytes.
pub uninterp spec fn lossy_text(bytes: Seq<u8>) -> Seq<char>;

/// `String::from_utf8_lossy`: valid UTF-8 is decoded as it is; otherwise
/// every invalid sequence becomes U+FFFD, so the text holds at least one.
#[verifier::external_body]
pub(crate) fn utf8_lossy(bytes: &[u8]) -> (r: String)
    ensures
        r@ == lossy_text(bytes@),
        vstd::utf8::valid_utf8(bytes@) ==> r@ == vstd::utf8::decode_utf8(bytes@),
        !vstd::utf8::valid_utf8(bytes@) ==> r@.contains('\u{FFFD}'),
{
    String::from_utf8_lossy(bytes).into_owned()
}

/// A session belongs to a project only when tmux answered and the session's
/// recorded project option, trimmed, is the project's identifier.
pub fn check_session_identity(answered: bool, stdout: &[u8], project_id: &str) -> (r: CoreResult<()>)
    ensures
        r is Ok <==> answered && trim(lossy_text(stdout@)) == project_id@,
        r matches Err(e) ==> e.code@ == "CONFLICT"@,
{
    let text = utf8_lossy(stdout);
    if !answered || !str_eq(trim_str(text.as_str()), project_id) {
        return Err(CoreError::new("CONFLICT", "tmux session identity is not managed by Muxlane"));
    }
    Ok(())
}

/// The project whose managed runner a launch's transaction starts.
pub fn runner_project(storage: &mut Storage, transaction_id: &str) -> (r: CoreResult<Project>)
    ensures
        read_from(*old(storage), *final(storage)),
        !is_valid_id(transaction_id.spec_bytes()) ==> (r matches Err(e) && e.code@
            == "INVALID_REQUEST"@),
        r matches Err(e) ==> storage_or(e, "NOT_FOUND"@) || e.code@ == "INVALID_REQUEST"@,
{
    validate_id(transaction_id)?;
    let transaction = storage.transaction(transaction_id)?;
    storage.project(transaction.project_id.as_str())
}

/// The project an auxiliary terminal named `name` is opened in; the project
/// identifier and the name are checked before anything is read.
pub fn auxiliary_project(storage: &mut Storage, project_id: &str, name: &str) -> (r: CoreResult<
    Project,
>)
    ensures
        read_from(*old(storage), *final(storage)),
        !is_valid_id(project_id.spec_bytes()) || !is_terminal_name(name.spec_bytes()) ==> (r matches Err(
            e,
        ) && e.code@ == "INVALID_REQUEST"@),
        r matches Ok(p) ==> p.project_id@ == project_id@,
        r matches Err(e) ==> storage_or(e, "NOT_FOUND"@) || e.code@ == "INVALID_REQUEST"@,
{
    validate_id(project_id)?;
    validate_terminal_name(name)?;
    storage.project(project_id)
}

/// The place of a terminal recorded after `count` others, saturated to `i64`.
pub open spec fn ordinal_after(count: nat) -> i64 {
    if count > i64::MAX {
        i64::MAX
    } else {
        count as i64
    }
}

/// Records a new running terminal of a project after the project's other
/// terminals, with a fresh identifier and the window tmux created.
pub fn record_terminal(
    storage: &mut Storage,
    project_id: &str,
    kind: &str,
    display_name: &str,
    window_id: String,
) -> (r: CoreResult<Terminal>)
    ensures
        r matches Ok(t) ==> t.project_id@ == project_id@ && t.kind@ == kind@ && t.display_name@
            == display_name@ && t.tmux_window_identity == window_id && t.lifecycle_status@
            == "running"@ && t.closed_at is None && t.terminal_id@.take(9) == "terminal_"@,
        r matches Err(e) ==> is_storage_failure(e),
        final(storage).spec_layout() == old(storage).spec_layout(),
        grown(old(storage).issued(), final(storage).issued()),
        final(storage).issued().len() <= old(storage).issued().len() + 1,
        r matches Ok(t) ==> final(storage).issued().len() == old(storage).issued().len() + 1
            && exists|existing: Seq<Terminal>|
            (forall|j: int| 0 <= j < existing.len() ==> (#[trigger] existing[j]).project_id@ == project_id@)
                && #[trigger] is_terminal_insert(
                final(storage).issued().last(),
                t,
                ordinal_after(existing.len()),
            ),
{
    let terminal_id = fresh_id("terminal");
    proof {
        reveal_strlit("terminal");
        assert("terminal"@ + "_"@ =~= "terminal_"@) by {
            reveal_strlit("terminal_");
            reveal_strlit("_");
        }
    }
    let terminal = new_terminal(terminal_id, project_id, kind, display_name, window_id, now());
    let terminals = storage.list_terminals(project_id)?;
    let existing = terminals.len();
    let count: u64 = existing as u64;
    let ordinal: i64 = if count > 9223372036854775807u64 {
        9223372036854775807i64
    } else {
        count as i64
    };
    storage.insert_terminal(&terminal, ordinal)?;
    assert(ordinal == ordinal_after(terminals@.len()));
    assert(is_terminal_insert(storage.issued().last(), terminal, ordinal_after(terminals@.len())));
    Ok(terminal)
}

/// The terminal with identifier `terminal_id` among the projects' terminals,
/// and its project. A project whose terminals cannot be read is passed over.
pub fn locate_terminal(storage: &mut Storage, terminal_id: &str) -> (r: CoreResult<(Terminal, Project)>)
    ensures
        read_from(*old(storage), *final(storage)),
        !is_valid_id(terminal_id.spec_bytes()) ==> (r matches Err(e) && e.code@ == "INVALID_REQUEST"@),
        r matches Ok((t, p)) ==> t.terminal_id@ == terminal_id@ && p.project_id@ == t.project_id@,
        r matches Err(e) ==> storage_or(e, "NOT_FOUND"@) || e.code@ == "INVALID_REQUEST"@,
{
    validate_id(terminal_id)?;
    let projects = storage.list_projects()?;
    let mut i: usize = 0;
    while i < projects.len()
        invariant
            i <= projects@.len(),
            is_valid_id(terminal_id.spec_bytes()),
            read_from(*old(storage), *storage),
        decreases projects@.len() - i,
    {
        if let Ok(mut terminals) = storage.list_terminals(projects[i].project_id.as_str()) {
            let mut j: usize = 0;
            while j < terminals.len()
                invariant
                    j <= terminals@.len(),
                    is_valid_id(terminal_id.spec_bytes()),
                    read_from(*old(storage), *storage),
                decreases terminals@.len() - j,
            {
                if str_eq(terminals[j].terminal_id.as_str(), terminal_id) {
                    let terminal = terminals.remove(j);
                    let project = storage.project(terminal.project_id.as_str())?;
                    return Ok((terminal, project));
                }
                j = j + 1;
            }
        }
        i = i + 1;
    }
    Err(CoreError::new("NOT_FOUND", "Terminal was not found"))
}

} // verus!
