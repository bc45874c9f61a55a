//! Thread index metadata: which Codex session files belong to a project, read
//! from their first lines only. Session bodies are never kept.

use vstd::prelude::*;
use vstd::string::*;

use crate::error::{CoreError, CoreResult};
use crate::layout::validate_id;
use crate::model::{Project, ThreadIndex};
use crate::rows::{is_storage_failure, opt_view, SqlParam};
use crate::storage::{grown, is_thread_index_delete, is_thread_index_insert, now, Storage};
use crate::json::{get_member, json_parse, member, member_of, parse_json, text_in, text_value, JsonValue};
use crate::text::str_eq;

verus! {

/// The most session files indexed for one project.
pub const MAX_SESSION_FILES: usize = 10000;

/// The largest session file that is read.
pub const MAX_SESSION_FILE_BYTES: u64 = 16777216;

/// The pieces of `b` between newline bytes, empty pieces included
/// (`<[u8]>::split`).
pub open spec fn byte_lines(b: Seq<u8>) -> Seq<Seq<u8>>
    decreases b.len(),
{
    if b.len() == 0 {
        seq![Seq::<u8>::empty()]
    } else {
        let rest = byte_lines(b.drop_last());
        if b.last() == 10u8 {
            rest.push(Seq::<u8>::empty())
        } else {
            rest.update(rest.len() - 1, rest.last().push(b.last()))
        }
    }
}

pub fn split_lines(b: &[u8]) -> (r: Vec<Vec<u8>>)
    ensures
        r@.map_values(|l: Vec<u8>| l@) == byte_lines(b@),
{
    let mut done: Vec<Vec<u8>> = Vec::new();
    let mut current: Vec<u8> = Vec::new();
    let mut i: usize = 0;
    proof {
        assert(b@.take(0) =~= Seq::<u8>::empty());
        assert(done@.map_values(|l: Vec<u8>| l@).push(current@) =~= seq![Seq::<u8>::empty()]);
    }
    while i < b.len()
        invariant
            i <= b@.len(),
            byte_lines(b@.take(i as int)) == done@.map_values(|l: Vec<u8>| l@).push(current@),
        decreases b@.len() - i,
    {
        let x = b[i];
        let ghost before = byte_lines(b@.take(i as int));
        proof {
            assert(b@.take(i + 1).drop_last() =~= b@.take(i as int));
            assert(b@.take(i + 1).last() == x);
        }
        if x == 10u8 {
            let piece = current;
            done.push(piece);
            current = Vec::new();
            proof {
                assert(done@.map_values(|l: Vec<u8>| l@) =~= before);
                assert(byte_lines(b@.take(i + 1)) =~= done@.map_values(|l: Vec<u8>| l@).push(current@));
            }
        } else {
            current.push(x);
            proof {
                assert(byte_lines(b@.take(i + 1)) =~= done@.map_values(|l: Vec<u8>| l@).push(current@));
            }
        }
        i = i + 1;
    }
    proof {
        assert(b@.take(b@.len() as int) =~= b@);
    }
    done.push(current);
    proof {
        assert(done@.map_values(|l: Vec<u8>| l@) =~= byte_lines(b@));
    }
    done
}

/// How many of a session file's first lines are searched for its metadata.
pub const SESSION_HEAD_LINES: usize = 32;

/// The lines of a session file that are searched for its metadata: its
/// first `SESSION_HEAD_LINES` newline-separated lines.
pub open spec fn head_lines(bytes: Seq<u8>) -> Seq<Seq<u8>> {
    let lines = byte_lines(bytes);
    if lines.len() <= SESSION_HEAD_LINES {
        lines
    } else {
        lines.take(SESSION_HEAD_LINES as int)
    }
}

/// A session file's first lines, split at each newline as `split` does.
pub fn session_head(bytes: &[u8]) -> (r: Vec<Vec<u8>>)
    ensures
        r@.map_values(|l: Vec<u8>| l@) == head_lines(bytes@),
{
    let mut lines = split_lines(bytes);
    if lines.len() > SESSION_HEAD_LINES {
        lines.truncate(SESSION_HEAD_LINES);
        proof {
            assert(lines@.map_values(|l: Vec<u8>| l@) =~= head_lines(bytes@));
        }
    }
    lines
}

/// A session file's first lines, each parsed as JSON (`None` for a line
/// that is not one JSON value).
pub fn session_heads(bytes: &[u8]) -> (r: Vec<Option<JsonValue>>)
    ensures
        r@.len() == head_lines(bytes@).len(),
        forall|i: int| 0 <= i < r@.len() ==> #[trigger] r@[i] == json_parse(head_lines(bytes@)[i]),
{
    let lines = session_head(bytes);
    let mut out: Vec<Option<JsonValue>> = Vec::new();
    let mut k: usize = 0;
    while k < lines.len()
        invariant
            k <= lines@.len(),
            lines@.map_values(|l: Vec<u8>| l@) == head_lines(bytes@),
            out@.len() == k,
            forall|i: int| 0 <= i < k ==> #[trigger] out@[i] == json_parse(head_lines(bytes@)[i]),
        decreases lines@.len() - k,
    {
        let parsed = parse_json(lines[k].as_slice());
        proof {
            assert(head_lines(bytes@)[k as int] == lines@[k as int]@);
        }
        out.push(parsed);
        k = k + 1;
    }
    out
}

/// The thread id and working directory a parsed line announces: a
/// `session_meta` line whose `payload.id` is a string; `payload.cwd` counts
/// only when it is a string.
pub open spec fn line_metadata(line: Option<JsonValue>) -> Option<(Seq<char>, Option<Seq<char>>)> {
    match line {
        Some(v) => {
            let payload = member(v, "payload"@);
            if text_in(member(v, "type"@)) == Some("session_meta"@) && text_in(
                member_of(payload, "id"@),
            ) is Some {
                Some((text_in(member_of(payload, "id"@))->0, text_in(member_of(payload, "cwd"@))))
            } else {
                None
            }
        },
        None => None,
    }
}

/// The first of the lines, from position `k`, that announces its session.
pub open spec fn first_metadata(lines: Seq<Option<JsonValue>>, k: int) -> Option<
    (Seq<char>, Option<Seq<char>>),
>
    decreases lines.len() - k,
{
    if k >= lines.len() || k < 0 {
        None
    } else if line_metadata(lines[k]) is Some {
        line_metadata(lines[k])
    } else {
        first_metadata(lines, k + 1)
    }
}

/// The metadata of a session file, from its parsed first lines.
pub open spec fn session_metadata_of(head: Seq<Option<JsonValue>>) -> Option<
    (Seq<char>, Option<Seq<char>>),
> {
    first_metadata(head, 0)
}

fn line_announcement(line: &Option<JsonValue>) -> (r: Option<(String, Option<String>)>)
    ensures
        match r {
            Some((id, cwd)) => line_metadata(*line) == Some((id@, opt_view(cwd))),
            None => line_metadata(*line) is None,
        },
{
    proof {
        reveal_strlit("session_meta");
    }
    match line {
        Some(v) => {
            let kind = text_value(get_member(v, "type"));
            let is_meta = match &kind {
                Some(value) => str_eq(value.as_str(), "session_meta"),
                None => false,
            };
            if !is_meta {
                return None;
            }
            let payload = get_member(v, "payload");
            let id = text_value(
                match payload {
                    Some(p) => get_member(p, "id"),
                    None => None,
                },
            );
            let cwd = text_value(
                match payload {
                    Some(p) => get_member(p, "cwd"),
                    None => None,
                },
            );
            match id {
                Some(thread_id) => Some((thread_id, cwd)),
                None => None,
            }
        },
        None => None,
    }
}

pub fn session_metadata(head: &Vec<Option<JsonValue>>) -> (r: Option<(String, Option<String>)>)
    ensures
        match r {
            Some((id, cwd)) => session_metadata_of(head@) == Some((id@, opt_view(cwd))),
            None => session_metadata_of(head@) is None,
        },
{
    let mut k: usize = 0;
    while k < head.len()
        invariant
            k <= head@.len(),
            first_metadata(head@, 0) == first_metadata(head@, k as int),
        decreases head@.len() - k,
    {
        match line_announcement(&head[k]) {
            Some(found) => {
                return Some(found);
            },
            None => {},
        }
        k = k + 1;
    }
    None
}

/// Whether a session belongs to the project: it names no working directory,
/// or the project's own.
pub open spec fn belongs_to(cwd: Option<Seq<char>>, project_path: Seq<char>) -> bool {
    match cwd {
        Some(c) => c == project_path,
        None => true,
    }
}

pub fn session_belongs(cwd: &Option<String>, project_path: &str) -> (r: bool)
    ensures
        r == belongs_to(opt_view(*cwd), project_path@),
{
    match cwd {
        Some(c) => str_eq(c.as_str(), project_path),
        None => true,
    }
}

/// The index record of a discovered session; its thread id must be a valid
/// resource identifier.
pub fn discovered_thread(
    thread_id: String,
    project_id: &str,
    source_relative_path: String,
    source_modified_at: i64,
    codex_version: Option<String>,
    indexed_at: i64,
) -> (r: CoreResult<ThreadIndex>)
    ensures
        r is Ok <==> crate::layout::is_valid_id(vstd::utf8::encode_utf8(thread_id@)),
        r matches Ok(t) ==> t.thread_id == thread_id && t.project_id@ == project_id@
            && t.source_relative_path == source_relative_path && t.source_modified_at
            == source_modified_at && t.codex_version == codex_version && t.status@ == "discovered"@
            && t.indexed_at == indexed_at,
        r matches Err(e) ==> e.code@ == "INVALID_REQUEST"@,
{
    validate_id(thread_id.as_str())?;
    Ok(
        ThreadIndex {
            thread_id,
            project_id: String::from_str(project_id),
            source_relative_path,
            source_modified_at,
            codex_version,
            status: String::from_str("discovered"),
            indexed_at,
        },
    )
}

/// A session file found under a project's Codex home: where it lies relative
/// to that home, when it was last modified, and its first lines
/// (`session_head`), each as the JSON value it parses to, if it is JSON.
pub struct SessionFile {
    pub relative_path: String,
    pub modified_at: i64,
    pub head: Vec<Option<JsonValue>>,
}

/// A session file's content, path and modification time.
pub open spec fn file_view(f: SessionFile) -> (Seq<Option<JsonValue>>, Seq<char>, i64) {
    (f.head@, f.relative_path@, f.modified_at)
}

/// The thread a session file indexes for a project: the session's thread,
/// when the file holds session metadata and the session belongs to the
/// project.
pub open spec fn indexed_thread(head: Seq<Option<JsonValue>>, project_path: Seq<char>) -> Option<Seq<char>> {
    match session_metadata_of(head) {
        Some((id, cwd)) => if belongs_to(cwd, project_path) {
            Some(id)
        } else {
            None
        },
        None => None,
    }
}

/// The thread, path and modification time of each file that indexes a
/// thread, in the files' order; `None` when one of those threads is not a
/// valid identifier.
pub open spec fn thread_entries(files: Seq<(Seq<Option<JsonValue>>, Seq<char>, i64)>, project_path: Seq<char>) -> Option<
    Seq<(Seq<char>, Seq<char>, i64)>,
>
    decreases files.len(),
{
    if files.len() == 0 {
        Some(Seq::empty())
    } else {
        match thread_entries(files.drop_last(), project_path) {
            None => None,
            Some(before) => {
                let (head, path, modified) = files.last();
                match indexed_thread(head, project_path) {
                    None => Some(before),
                    Some(id) => if crate::layout::is_valid_id(vstd::utf8::encode_utf8(id)) {
                        Some(before.push((id, path, modified)))
                    } else {
                        None
                    },
                }
            },
        }
    }
}

/// The thread, path and modification time of an index record.
pub open spec fn entry_of(t: ThreadIndex) -> (Seq<char>, Seq<char>, i64) {
    (t.thread_id@, t.source_relative_path@, t.source_modified_at)
}

/// The index records of a project's session files: one per file that indexes
/// a thread, in the files' order, each `discovered` with the Codex version
/// and the indexing time.
pub fn thread_indexes(
    project_id: &str,
    project_path: &str,
    codex_version: &Option<String>,
    files: &Vec<SessionFile>,
    indexed_at: i64,
) -> (r: CoreResult<Vec<ThreadIndex>>)
    ensures
        r is Ok <==> thread_entries(files@.map_values(|f: SessionFile| file_view(f)), project_path@) is Some,
        r matches Ok(v) ==> Some(v@.map_values(|t: ThreadIndex| entry_of(t))) == thread_entries(
            files@.map_values(|f: SessionFile| file_view(f)),
            project_path@,
        ),
        r matches Ok(v) ==> forall|i: int|
            0 <= i < v@.len() ==> (#[trigger] v@[i]).project_id@ == project_id@ && opt_view(
                v@[i].codex_version,
            ) == opt_view(*codex_version) && v@[i].status@ == "discovered"@ && v@[i].indexed_at
                == indexed_at,
        r matches Err(e) ==> e.code@ == "INVALID_REQUEST"@,
{
    let ghost views = files@.map_values(|f: SessionFile| file_view(f));
    let mut out: Vec<ThreadIndex> = Vec::new();
    let mut k: usize = 0;
    assert(views.take(0) =~= Seq::<(Seq<Option<JsonValue>>, Seq<char>, i64)>::empty());
    while k < files.len()
        invariant
            k <= files@.len(),
            views == files@.map_values(|f: SessionFile| file_view(f)),
            thread_entries(views.take(k as int), project_path@) == Some(
                out@.map_values(|t: ThreadIndex| entry_of(t)),
            ),
            forall|i: int|
                0 <= i < out@.len() ==> (#[trigger] out@[i]).project_id@ == project_id@ && opt_view(
                    out@[i].codex_version,
                ) == opt_view(*codex_version) && out@[i].status@ == "discovered"@
                    && out@[i].indexed_at == indexed_at,
        decreases files@.len() - k,
    {
        let ghost before = out@.map_values(|t: ThreadIndex| entry_of(t));
        assert(views.take(k + 1).drop_last() =~= views.take(k as int));
        assert(views.take(k + 1).last() == file_view(files@[k as int]));
        let file = &files[k];
        match session_metadata(&file.head) {
            Some((thread_id, cwd)) => {
                if session_belongs(&cwd, project_path) {
                    let version = match codex_version {
                        Some(v) => Some(v.clone()),
                        None => None,
                    };
                    let index = discovered_thread(
                        thread_id,
                        project_id,
                        file.relative_path.clone(),
                        file.modified_at,
                        version,
                        indexed_at,
                    );
                    match index {
                        Ok(index) => {
                            out.push(index);
                            assert(out@.map_values(|t: ThreadIndex| entry_of(t)) =~= before.push(
                                entry_of(out@.last()),
                            ));
                        },
                        Err(error) => {
                            proof {
                                assert(thread_entries(views.take(k + 1), project_path@) is None);
                                lemma_entries_extend_none(views, k + 1, project_path@);
                            }
                            return Err(error);
                        },
                    }
                }
            },
            None => {},
        }
        k = k + 1;
    }
    assert(views.take(views.len() as int) =~= views);
    Ok(out)
}

/// Once an invalid thread appears, every longer prefix fails too.
proof fn lemma_entries_extend_none(views: Seq<(Seq<Option<JsonValue>>, Seq<char>, i64)>, k: int, project_path: Seq<char>)
    requires
        0 <= k <= views.len(),
        thread_entries(views.take(k), project_path) is None,
    ensures
        thread_entries(views, project_path) is None,
    decreases views.len() - k,
{
    if k < views.len() {
        assert(views.take(k + 1).drop_last() =~= views.take(k));
        lemma_entries_extend_none(views, k + 1, project_path);
    } else {
        assert(views.take(k) =~= views);
    }
}

/// The statements, issued after `before`, that replace project `project_id`'s
/// thread index with `indexes`: every old record deleted, then each new one
/// inserted in order.
pub open spec fn is_reindexing(
    before: Seq<(Seq<char>, Seq<SqlParam>)>,
    after: Seq<(Seq<char>, Seq<SqlParam>)>,
    project_id: Seq<char>,
    indexes: Seq<ThreadIndex>,
) -> bool {
    let o = before.len() as int;
    &&& after.len() == o + 1 + indexes.len()
    &&& is_thread_index_delete(after[o], project_id)
    &&& forall|i: int|
        0 <= i < indexes.len() ==> is_thread_index_insert(#[trigger] after[o + 1 + i], indexes[i])
}

/// Re-indexes a project's threads from its session files and reads the index
/// back.
pub fn refresh_threads(
    storage: &mut Storage,
    project: &Project,
    codex_version: &Option<String>,
    files: &Vec<SessionFile>,
) -> (r: CoreResult<Vec<ThreadIndex>>)
    ensures
        thread_entries(files@.map_values(|f: SessionFile| file_view(f)), project.canonical_wsl_path@) is None
            ==> (r matches Err(e) && e.code@ == "INVALID_REQUEST"@),
        r matches Err(e) ==> is_storage_failure(e) || e.code@ == "INVALID_REQUEST"@,
        final(storage).spec_layout() == old(storage).spec_layout(),
        grown(old(storage).issued(), final(storage).issued()),
        r matches Err(e) && e.code@ == "INVALID_REQUEST"@ ==> final(storage).issued() == old(
            storage,
        ).issued(),
        r is Ok ==> exists|indexes: Seq<ThreadIndex>|
            #[trigger] is_reindexing(
                old(storage).issued(),
                final(storage).issued(),
                project.project_id@,
                indexes,
            ) && Some(indexes.map_values(|t: ThreadIndex| entry_of(t))) == thread_entries(
                files@.map_values(|f: SessionFile| file_view(f)),
                project.canonical_wsl_path@,
            ) && forall|i: int|
                0 <= i < indexes.len() ==> (#[trigger] indexes[i]).project_id@
                    == project.project_id@ && opt_view(indexes[i].codex_version) == opt_view(
                    *codex_version,
                ) && indexes[i].status@ == "discovered"@,
{
    proof {
        reveal_strlit("INVALID_REQUEST");
        reveal_strlit("STORAGE_FAILURE");
        assert("INVALID_REQUEST"@.len() == 15);
        assert("STORAGE_FAILURE"@[0] != "INVALID_REQUEST"@[0]);
    }
    let indexes = thread_indexes(
        project.project_id.as_str(),
        project.canonical_wsl_path.as_str(),
        codex_version,
        files,
        now(),
    )?;
    storage.replace_thread_indexes(project.project_id.as_str(), indexes.as_slice())?;
    assert(is_reindexing(
        old(storage).issued(),
        storage.issued(),
        project.project_id@,
        indexes@,
    ));
    storage.list_thread_indexes(project.project_id.as_str())
}

} // verus!
