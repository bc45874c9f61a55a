//! Read-only, project-confined workspace navigation: which relative paths may
//! be followed, which searches are accepted, and what a preview shows.

use vstd::prelude::*;
use vstd::string::*;

use crate::error::{CoreError, CoreResult};
use crate::layout::{is_valid_id, validate_id};
use crate::model::{Project, WorkspaceEntry};
use crate::storage::{read_from, storage_or, Storage};
use crate::order::{is_stable_sort, sort_by_keys};
use crate::paths::{has_parent_component, scan_components};
use crate::text::{contains_text, has_substring, has_control, is_blank, lemma_text_chars, starts_with_str, str_eq, str_has_control, str_is_blank, utf8_text};

verus! {

pub const MAX_DIRECTORY_ENTRIES: usize = 2000;

pub const MAX_SEARCH_RESULTS: usize = 300;

pub const MAX_SEARCH_VISITS: usize = 20000;

pub const MAX_PREVIEW_BYTES: u64 = 1048576;

/// A path inside a project that navigation may follow: at most 4096 bytes, no
/// NUL, relative, with no `..` component; empty only where the project root
/// itself is meant.
pub open spec fn is_workspace_path(value: &str, allow_empty: bool) -> bool {
    &&& allow_empty || value@.len() > 0
    &&& value.spec_bytes().len() <= 4096
    &&& !value@.contains('\0')
    &&& !(value@.len() > 0 && value@[0] == '/')
    &&& !has_parent_component(value@)
}

fn has_nul(value: &str) -> (r: bool)
    ensures
        r == value@.contains('\0'),
{
    let n = value.unicode_len();
    let mut i: usize = 0;
    while i < n
        invariant
            n == value@.len(),
            i <= n,
            forall|j: int| 0 <= j < i ==> value@[j] != '\0',
        decreases n - i,
    {
        if value.get_char(i) == '\0' {
            return true;
        }
        i = i + 1;
    }
    false
}

pub fn validate_relative(value: &str, allow_empty: bool) -> (r: CoreResult<()>)
    ensures
        r is Ok <==> is_workspace_path(value, allow_empty),
        r matches Err(e) ==> e.code@ == "PATH_REJECTED"@,
{
    let n = value.unicode_len();
    let absolute = n > 0 && value.get_char(0) == '/';
    let scan = scan_components(value);
    if (!allow_empty && n == 0) || value.as_bytes().len() > 4096 || has_nul(value) || absolute
        || scan.any_parent {
        return Err(CoreError::new("PATH_REJECTED", "workspace path is invalid"));
    }
    Ok(())
}

/// A file-name search: not blank, at most 160 bytes, no control characters.
pub open spec fn is_search_query(query: &str) -> bool {
    !is_blank(query@) && query.spec_bytes().len() <= 160 && !has_control(query@)
}

pub fn validate_query(query: &str) -> (r: CoreResult<()>)
    ensures
        r is Ok <==> is_search_query(query),
        r matches Err(e) ==> e.code@ == "INVALID_REQUEST"@,
{
    if str_is_blank(query) || query.as_bytes().len() > 160 || str_has_control(query) {
        return Err(CoreError::new("INVALID_REQUEST", "file search query is invalid"));
    }
    Ok(())
}

/// Directories a search does not descend into.
pub open spec fn is_ignored(name: Seq<char>) -> bool {
    name == ".git"@ || name == "node_modules"@ || name == "target"@ || name == ".next"@ || name
        == "dist"@ || name == "build"@
}

pub fn is_ignored_directory(name: &str) -> (r: bool)
    ensures
        r == is_ignored(name@),
{
    str_eq(name, ".git") || str_eq(name, "node_modules") || str_eq(name, "target") || str_eq(
        name,
        ".next",
    ) || str_eq(name, "dist") || str_eq(name, "build")
}

/// The number of lines `str::lines` yields: one for each character that
/// starts a line, the first or one after a newline.
pub open spec fn line_count(s: Seq<char>) -> nat
    decreases s.len(),
{
    if s.len() == 0 {
        0
    } else if s.len() == 1 || s[s.len() - 2] == '\n' {
        line_count(s.drop_last()) + 1
    } else {
        line_count(s.drop_last())
    }
}

proof fn lemma_line_count_bounded(s: Seq<char>)
    ensures
        line_count(s) <= s.len(),
    decreases s.len(),
{
    if s.len() > 0 {
        lemma_line_count_bounded(s.drop_last());
    }
}

pub fn count_lines(s: &str) -> (r: usize)
    ensures
        r == line_count(s@),
{
    let n = s.unicode_len();
    let mut count: usize = 0;
    let mut i: usize = 0;
    while i < n
        invariant
            n == s@.len(),
            i <= n,
            count == line_count(s@.take(i as int)),
            count <= i,
        decreases n - i,
    {
        let c = s.get_char(i);
        let ghost prefix = s@.take(i + 1);
        proof {
            assert(prefix.drop_last() =~= s@.take(i as int));
            assert(prefix.last() == c);
            if i >= 1 {
                assert(prefix[prefix.len() - 2] == s@[i - 1]);
            }
        }
        if i == 0 || s.get_char(i - 1) == '\n' {
            count = count + 1;
        }
        i = i + 1;
    }
    proof {
        assert(s@.take(n as int) =~= s@);
    }
    count
}

/// What a preview shows of the first bytes read (at most one byte past the
/// preview bound): the text up to the bound, whether more followed, and its
/// line count; text holding a NUL byte or invalid UTF-8 is refused as binary.
pub open spec fn preview_of(read: Seq<u8>) -> Option<(Seq<char>, bool, nat)> {
    let kept = if read.len() > MAX_PREVIEW_BYTES {
        read.take(MAX_PREVIEW_BYTES as int)
    } else {
        read
    };
    if kept.contains(0u8) || !vstd::utf8::valid_utf8(kept) {
        None
    } else {
        let text = vstd::utf8::decode_utf8(kept);
        Some((text, read.len() > MAX_PREVIEW_BYTES, line_count(text)))
    }
}

fn has_zero(b: &[u8]) -> (r: bool)
    ensures
        r == b@.contains(0u8),
{
    let mut i: usize = 0;
    while i < b.len()
        invariant
            i <= b@.len(),
            forall|j: int| 0 <= j < i ==> b@[j] != 0u8,
        decreases b@.len() - i,
    {
        if b[i] == 0u8 {
            return true;
        }
        i = i + 1;
    }
    false
}

/// The previewed text, whether it was truncated, and its line count.
pub fn preview_text(read: &[u8]) -> (r: CoreResult<(String, bool, usize)>)
    ensures
        r is Ok <==> preview_of(read@) is Some,
        r matches Ok(p) ==> preview_of(read@) == Some((p.0@, p.1, p.2 as nat)),
        r matches Err(e) ==> e.code@ == "BINARY_FILE"@,
{
    let truncated = read.len() as u64 > MAX_PREVIEW_BYTES;
    let kept = if truncated {
        crate::gateway::slice_prefix(read, 1048576)
    } else {
        crate::gateway::slice_prefix(read, read.len())
    };
    proof {
        assert(read@.take(read@.len() as int) =~= read@);
    }
    if has_zero(kept.as_slice()) {
        return Err(CoreError::new("BINARY_FILE", "binary files cannot be previewed"));
    }
    let text = match utf8_text(kept.as_slice()) {
        Some(text) => text,
        None => {
            return Err(CoreError::new("BINARY_FILE", "file is not valid UTF-8 text"));
        },
    };
    proof {
        lemma_text_chars(text, kept@);
    }
    let lines = count_lines(text);
    Ok((text.to_string(), truncated, lines))
}

/// Whether a resolved absolute path lies at or under a project root: it is
/// the root itself, or it continues the root with a `/` (a root that ends in
/// `/` is continued directly).
pub open spec fn is_within(root: Seq<char>, path: Seq<char>) -> bool {
    ||| path == root
    ||| (root.len() > 0 && root.last() == '/' && root.len() <= path.len() && path.take(root.len() as int) == root)
    ||| (root.len() + 1 <= path.len() && path.take(root.len() as int) == root && path[root.len() as int] == '/')
}

/// A resolved workspace path must stay inside its project root.
pub fn check_confined(root: &str, path: &str) -> (r: CoreResult<()>)
    ensures
        r is Ok <==> is_within(root@, path@),
        r matches Err(e) ==> e.code@ == "PATH_REJECTED"@,
{
    let n = root.unicode_len();
    let m = path.unicode_len();
    if str_eq(root, path) {
        return Ok(());
    }
    if n > m || !starts_with_str(path, root) {
        return Err(CoreError::new("PATH_REJECTED", "workspace path escaped Project root"));
    }
    if n > 0 && root.get_char(n - 1) == '/' {
        return Ok(());
    }
    if n < m && path.get_char(n) == '/' {
        return Ok(());
    }
    Err(CoreError::new("PATH_REJECTED", "workspace path escaped Project root"))
}

/// The text that `str::to_lowercase` makes of a text.
pub uninterp spec fn lowercase_text(s: Seq<char>) -> Seq<char>;

/// `str::to_lowercase`: the Unicode lowercase mapping of a text, which is
/// named here rather than stated.
#[verifier::external_body]
pub(crate) fn to_lowercase(s: &str) -> (r: String)
    ensures
        r@ == lowercase_text(s@),
{
    s.to_lowercase()
}

/// The kind a workspace entry is listed with.
pub fn entry_kind(is_directory: bool) -> (r: &'static str)
    ensures
        is_directory ==> r@ == "directory"@,
        !is_directory ==> r@ == "file"@,
{
    if is_directory {
        "directory"
    } else {
        "file"
    }
}

/// A listed workspace entry; only a file has a size.
pub fn workspace_entry(
    relative_path: String,
    name: String,
    is_directory: bool,
    is_file: bool,
    length: u64,
    modified_at: Option<i64>,
) -> (r: WorkspaceEntry)
    ensures
        r.relative_path == relative_path,
        r.name == name,
        r.kind@ == (if is_directory { "directory"@ } else { "file"@ }),
        r.size == (if is_file { length } else { 0 }),
        r.modified_at == modified_at,
{
    WorkspaceEntry {
        relative_path,
        name,
        kind: String::from_str(entry_kind(is_directory)),
        size: if is_file {
            length
        } else {
            0
        },
        modified_at,
    }
}

/// A search matches a name whose lowercase form contains the lowercase form
/// of the query.
pub fn name_matches(name: &str, query: &str) -> (r: bool)
    ensures
        r == has_substring(lowercase_text(name@), lowercase_text(query@)),
{
    let lowered = to_lowercase(name);
    let lowered_query = to_lowercase(query);
    contains_text(lowered.as_str(), lowered_query.as_str())
}

/// The key a directory listing is ordered by: the kind, then the lowercase
/// name. Kinds hold no NUL character, so ordering by this text orders by
/// kind first and by lowercase name among entries of one kind.
pub open spec fn listing_key(e: WorkspaceEntry) -> Seq<char> {
    e.kind@ + seq!['\0'] + lowercase_text(e.name@)
}

/// A directory listing in its order: directories before files, each by
/// lowercase name, equal names in the order read.
pub fn listing_order(entries: Vec<WorkspaceEntry>) -> (r: Vec<WorkspaceEntry>)
    ensures
        is_stable_sort(entries@, entries@.map_values(|e: WorkspaceEntry| listing_key(e)), r@),
{
    let mut keys: Vec<String> = Vec::new();
    let mut k: usize = 0;
    while k < entries.len()
        invariant
            k <= entries@.len(),
            keys@.len() == k,
            forall|i: int| 0 <= i < k ==> #[trigger] keys@[i]@ == listing_key(entries@[i]),
        decreases entries@.len() - k,
    {
        let mut key = entries[k].kind.clone();
        key.append("\0");
        let lowered = to_lowercase(entries[k].name.as_str());
        key.append(lowered.as_str());
        proof {
            reveal_strlit("\0");
            assert(key@ =~= listing_key(entries@[k as int]));
        }
        keys.push(key);
        k = k + 1;
    }
    proof {
        assert(keys@.map_values(|s: String| s@) =~= entries@.map_values(
            |e: WorkspaceEntry| listing_key(e),
        ));
    }
    sort_by_keys(entries, keys)
}

/// Search results in relative-path order.
pub fn search_order(entries: Vec<WorkspaceEntry>) -> (r: Vec<WorkspaceEntry>)
    ensures
        is_stable_sort(entries@, entries@.map_values(|e: WorkspaceEntry| e.relative_path@), r@),
{
    let mut keys: Vec<String> = Vec::new();
    let mut k: usize = 0;
    while k < entries.len()
        invariant
            k <= entries@.len(),
            keys@.len() == k,
            forall|i: int| 0 <= i < k ==> #[trigger] keys@[i]@ == entries@[i].relative_path@,
        decreases entries@.len() - k,
    {
        keys.push(entries[k].relative_path.clone());
        k = k + 1;
    }
    proof {
        assert(keys@.map_values(|s: String| s@) =~= entries@.map_values(
            |e: WorkspaceEntry| e.relative_path@,
        ));
    }
    sort_by_keys(entries, keys)
}

/// The project a workspace request navigates, once its identifier and the
/// requested relative path pass their checks.
pub fn workspace_project(
    storage: &mut Storage,
    project_id: &str,
    relative_path: &str,
    allow_root: bool,
) -> (r: CoreResult<Project>)
    ensures
        read_from(*old(storage), *final(storage)),
        !is_valid_id(project_id.spec_bytes()) ==> (r matches Err(e) && e.code@ == "INVALID_REQUEST"@),
        is_valid_id(project_id.spec_bytes()) && !is_workspace_path(relative_path, allow_root) ==> (
        r matches Err(e) && e.code@ == "PATH_REJECTED"@),
        r matches Ok(p) ==> p.project_id@ == project_id@,
        r matches Err(e) ==> storage_or(e, "NOT_FOUND"@) || e.code@ == "INVALID_REQUEST"@
            || e.code@ == "PATH_REJECTED"@,
{
    validate_id(project_id)?;
    validate_relative(relative_path, allow_root)?;
    storage.project(project_id)
}

} // verus!
