//! Durable, non-secret workbench configuration: project settings, project
//! templates, command presets and submitted input history. Terminal output,
//! credentials and environment values never enter these tables.

use vstd::prelude::*;
use vstd::string::*;

use crate::error::{CoreError, CoreResult};
use crate::layout::{is_valid_id, validate_id};
use crate::model::{CommandPreset, CommandPresetTemplate, InputHistory, ProjectSettings};
use crate::paths::{has_parent_component, scan_components};
use crate::rows::{
    Cell, SqlParam, int_cell, is_int, is_opt_text, is_storage_failure, is_text, int_of,
    opt_text_cell, opt_text_of, opt_view, text_cell, text_of,
};
use crate::storage::{answered, asked_with, last_rows, reads_grown};
use crate::storage::{read_from, 
    Storage, as_opt_str, check_found, fresh_id, grown, is_fresh_id, now, opt_str_view, opt_text_is,
    opt_text_param, text_is, text_param, int_is, is_int_param,
};
use crate::text::{str_before, text_before, 
    ascii_lowercase, byte_is_alnum, char_is_control, contains_text, has_substring, is_alnum,
    is_blank, is_control, lower_ascii, split_whitespace_words, str_eq, str_is_blank, tokens,
    trim, trim_str,
};

verus! {

pub const MAX_NAME: usize = 120;

pub const MAX_DESCRIPTION: usize = 500;

pub const MAX_COMMAND: usize = 8192;

pub const MAX_HISTORY: usize = 16384;

pub const MAX_HISTORY_RESULTS: u16 = 200;

// ---------------------------------------------------------------------------
// Validation.

/// A byte of a model identifier: an ASCII letter or digit, `.`, `_` or `-`.
pub open spec fn is_model_byte(b: u8) -> bool {
    is_alnum(b) || b == 46u8 || b == 95u8 || b == 45u8
}

/// A model identifier: 1 to 80 model bytes.
pub open spec fn is_model(b: Seq<u8>) -> bool {
    0 < b.len() <= 80 && forall|i: int| 0 <= i < b.len() ==> is_model_byte(#[trigger] b[i])
}

pub fn validate_model(value: &str) -> (r: CoreResult<()>)
    ensures
        r is Ok <==> is_model(value.spec_bytes()),
        r matches Err(e) ==> e.code@ == "INVALID_REQUEST"@,
{
    let b = value.as_bytes();
    let n = b.len();
    if n == 0 || n > 80 {
        return Err(CoreError::new("INVALID_REQUEST", "model identifier is invalid"));
    }
    let mut i: usize = 0;
    while i < n
        invariant
            b@ == value.spec_bytes(),
            n == b@.len(),
            i <= n,
            forall|j: int| 0 <= j < i ==> is_model_byte(#[trigger] b@[j]),
        decreases n - i,
    {
        let x = b[i];
        if !(byte_is_alnum(x) || x == 46u8 || x == 95u8 || x == 45u8) {
            return Err(CoreError::new("INVALID_REQUEST", "model identifier is invalid"));
        }
        i = i + 1;
    }
    Ok(())
}

/// A reasoning effort the runtime accepts.
pub open spec fn is_reasoning(value: Seq<char>) -> bool {
    value == "low"@ || value == "medium"@ || value == "high"@ || value == "xhigh"@
}

pub fn validate_reasoning(value: &str) -> (r: CoreResult<()>)
    ensures
        r is Ok <==> is_reasoning(value@),
        r matches Err(e) ==> e.code@ == "INVALID_REQUEST"@,
{
    if str_eq(value, "low") || str_eq(value, "medium") || str_eq(value, "high") || str_eq(
        value,
        "xhigh",
    ) {
        Ok(())
    } else {
        Err(CoreError::new("INVALID_REQUEST", "reasoning value is invalid"))
    }
}

/// A terminal kind the runtime accepts.
pub open spec fn is_terminal_kind(value: Seq<char>) -> bool {
    value == "codex"@ || value == "shell"@ || value == "auxiliary"@
}

pub fn validate_terminal_kind(value: &str) -> (r: CoreResult<()>)
    ensures
        r is Ok <==> is_terminal_kind(value@),
        r matches Err(e) ==> e.code@ == "INVALID_REQUEST"@,
{
    if str_eq(value, "codex") || str_eq(value, "shell") || str_eq(value, "auxiliary") {
        Ok(())
    } else {
        Err(CoreError::new("INVALID_REQUEST", "Terminal kind is invalid"))
    }
}

/// A working directory that stays inside the project: empty, or relative
/// with no `..` component.
pub open spec fn is_project_relative(path: Seq<char>) -> bool {
    path.len() == 0 || (path[0] != '/' && !has_parent_component(path))
}

pub fn validate_relative_path(value: &str) -> (r: CoreResult<()>)
    ensures
        r is Ok <==> is_project_relative(value@),
        r matches Err(e) ==> e.code@ == "PATH_REJECTED"@,
{
    if value.unicode_len() == 0 {
        return Ok(());
    }
    let scan = scan_components(value);
    if value.get_char(0) == '/' || scan.any_parent {
        return Err(CoreError::new("PATH_REJECTED", "working directory must stay in Project"));
    }
    Ok(())
}

/// Whether `s` holds a control character other than newline and tab.
pub open spec fn has_forbidden_control(s: Seq<char>) -> bool {
    exists|i: int| 0 <= i < s.len() && is_control(#[trigger] s[i]) && s[i] != '\n' && s[i] != '\t'
}

/// Text the workbench stores: not blank unless allowed, at most `max` bytes,
/// and free of control characters other than newline and tab.
pub open spec fn is_acceptable_text(s: Seq<char>, max: nat, allow_empty: bool) -> bool {
    &&& allow_empty || !is_blank(s)
    &&& vstd::utf8::encode_utf8(s).len() <= max
    &&& !s.contains('\0')
    &&& !has_forbidden_control(s)
}

fn forbidden_control(s: &str) -> (r: bool)
    ensures
        r == (s@.contains('\0') || has_forbidden_control(s@)),
{
    let n = s.unicode_len();
    let mut i: usize = 0;
    while i < n
        invariant
            n == s@.len(),
            i <= n,
            forall|j: int| 0 <= j < i ==> !(is_control(#[trigger] s@[j]) && s@[j] != '\n' && s@[j] != '\t'),
            forall|j: int| 0 <= j < i ==> #[trigger] s@[j] != '\0',
        decreases n - i,
    {
        let c = s.get_char(i);
        if char_is_control(c) && c != '\n' && c != '\t' {
            assert(is_control(s@[i as int]) && s@[i as int] != '\n' && s@[i as int] != '\t');
            return true;
        }
        i = i + 1;
    }
    false
}

/// Accepts text the workbench stores, or refuses it as `<label> is invalid`.
pub fn validate_text(value: &str, max: usize, allow_empty: bool, label: &str) -> (r: CoreResult<()>)
    ensures
        r is Ok <==> is_acceptable_text(value@, max as nat, allow_empty),
        r matches Err(e) ==> e.code@ == "INVALID_REQUEST"@ && e.message@ == label@ + " is invalid"@,
{
    let blank = str_is_blank(value);
    let too_long = value.as_bytes().len() > max;
    if (!allow_empty && blank) || too_long || forbidden_control(value) {
        let mut message = String::from_str(label);
        message.append(" is invalid");
        return Err(CoreError { code: "INVALID_REQUEST", message });
    }
    Ok(())
}

/// The markers of credential material in lowercased input.
pub open spec fn sensitive_markers() -> Seq<Seq<char>> {
    seq![
        "authorization: bearer "@,
        "access_token"@,
        "refresh_token"@,
        "client_secret"@,
        "api_key"@,
        "private key-----"@,
    ]
}

/// A character of a token-like word: an ASCII letter or digit, `-`, `_`, `.`.
pub open spec fn is_token_char(c: char) -> bool {
    ('a' <= c <= 'z') || ('A' <= c <= 'Z') || ('0' <= c <= '9') || c == '-' || c == '_' || c == '.'
}

/// A word long enough and plain enough to be a secret token.
pub open spec fn is_token_like(word: Seq<char>) -> bool {
    word.len() >= 80 && forall|i: int| 0 <= i < word.len() ==> is_token_char(#[trigger] word[i])
}

/// Input that resembles a credential: it names credential material
/// (case-insensitively), or holds a token-like word.
pub open spec fn is_sensitive(value: Seq<char>) -> bool {
    (exists|k: int| 0 <= k < 6 && has_substring(lower_ascii(value), #[trigger] sensitive_markers()[k]))
        || (exists|k: int| 0 <= k < tokens(value).len() && is_token_like(#[trigger] tokens(value)[k]))
}

/// Input naming credential material, in any letter case, is sensitive:
/// a bearer authorization header, an access or refresh token, a client
/// secret, an API key or the end of a private key block.
pub proof fn lemma_credential_markers_are_sensitive(value: Seq<char>)
    ensures
        has_substring(lower_ascii(value), "authorization: bearer "@) ==> is_sensitive(value),
        has_substring(lower_ascii(value), "access_token"@) ==> is_sensitive(value),
        has_substring(lower_ascii(value), "refresh_token"@) ==> is_sensitive(value),
        has_substring(lower_ascii(value), "client_secret"@) ==> is_sensitive(value),
        has_substring(lower_ascii(value), "api_key"@) ==> is_sensitive(value),
        has_substring(lower_ascii(value), "private key-----"@) ==> is_sensitive(value),
{
    assert(sensitive_markers()[0] == "authorization: bearer "@);
    assert(sensitive_markers()[1] == "access_token"@);
    assert(sensitive_markers()[2] == "refresh_token"@);
    assert(sensitive_markers()[3] == "client_secret"@);
    assert(sensitive_markers()[4] == "api_key"@);
    assert(sensitive_markers()[5] == "private key-----"@);
}

fn token_like(word: &str) -> (r: bool)
    ensures
        r == is_token_like(word@),
{
    let n = word.unicode_len();
    if n < 80 {
        return false;
    }
    let mut i: usize = 0;
    while i < n
        invariant
            n == word@.len(),
            i <= n,
            forall|j: int| 0 <= j < i ==> is_token_char(#[trigger] word@[j]),
        decreases n - i,
    {
        let c = word.get_char(i);
        if !(('a' <= c && c <= 'z') || ('A' <= c && c <= 'Z') || ('0' <= c && c <= '9') || c == '-'
            || c == '_' || c == '.') {
            assert(!is_token_char(word@[i as int]));
            return false;
        }
        i = i + 1;
    }
    true
}

pub fn looks_sensitive(value: &str) -> (r: bool)
    ensures
        r == is_sensitive(value@),
{
    let lower = ascii_lowercase(value);
    let markers = [
        "authorization: bearer ",
        "access_token",
        "refresh_token",
        "client_secret",
        "api_key",
        "private key-----",
    ];
    proof {
        assert(markers@.len() == 6);
        assert forall|k: int| 0 <= k < 6 implies #[trigger] markers@[k]@ == sensitive_markers()[k] by {}
    }
    let mut k: usize = 0;
    while k < 6
        invariant
            k <= 6,
            markers@.len() == 6,
            lower@ == lower_ascii(value@),
            forall|m: int| 0 <= m < 6 ==> #[trigger] markers@[m]@ == sensitive_markers()[m],
            forall|m: int| 0 <= m < k ==> !has_substring(lower_ascii(value@), #[trigger] sensitive_markers()[m]),
        decreases 6 - k,
    {
        if contains_text(lower.as_str(), markers[k]) {
            assert(has_substring(lower_ascii(value@), sensitive_markers()[k as int]));
            return true;
        }
        k = k + 1;
    }
    let words = split_whitespace_words(value);
    let mut i: usize = 0;
    while i < words.len()
        invariant
            i <= words@.len(),
            words@.map_values(|w: String| w@) == tokens(value@),
            forall|m: int| 0 <= m < 6 ==> !has_substring(lower_ascii(value@), #[trigger] sensitive_markers()[m]),
            forall|m: int| 0 <= m < i ==> !is_token_like(#[trigger] tokens(value@)[m]),
        decreases words@.len() - i,
    {
        assert(tokens(value@)[i as int] == words@[i as int]@);
        if token_like(words[i].as_str()) {
            return true;
        }
        i = i + 1;
    }
    false
}

/// A command preset template the workbench accepts.
pub open spec fn is_valid_command_template(t: CommandPresetTemplate) -> bool {
    &&& is_acceptable_text(t.name@, 120, false)
    &&& is_acceptable_text(t.description@, 500, true)
    &&& is_terminal_kind(t.terminal_kind@)
    &&& is_project_relative(t.working_directory@)
    &&& is_acceptable_text(t.command@, 8192, false)
}

pub fn validate_command_template(value: &CommandPresetTemplate) -> (r: CoreResult<()>)
    ensures
        r is Ok <==> is_valid_command_template(*value),
        r matches Err(e) ==> is_workbench_error(e),
{
    validate_text(value.name.as_str(), MAX_NAME, false, "command preset name")?;
    validate_text(value.description.as_str(), MAX_DESCRIPTION, true, "command preset description")?;
    validate_terminal_kind(value.terminal_kind.as_str())?;
    validate_relative_path(value.working_directory.as_str())?;
    validate_text(value.command.as_str(), MAX_COMMAND, false, "command preset")
}

/// The `LIKE` pattern that finds `query` anywhere, with `%` and `_` escaped by
/// a backslash.
pub open spec fn escape_like(q: Seq<char>) -> Seq<char>
    decreases q.len(),
{
    if q.len() == 0 {
        Seq::<char>::empty()
    } else {
        let c = q.last();
        escape_like(q.drop_last()) + (if c == '%' || c == '_' {
            seq!['\\', c]
        } else {
            seq![c]
        })
    }
}

pub fn like_pattern(query: &str) -> (r: String)
    ensures
        r@ == seq!['%'] + escape_like(query@) + seq!['%'],
{
    let n = query.unicode_len();
    let mut out = String::new();
    out.push('%');
    let mut i: usize = 0;
    while i < n
        invariant
            n == query@.len(),
            i <= n,
            out@ == seq!['%'] + escape_like(query@.take(i as int)),
        decreases n - i,
    {
        let c = query.get_char(i);
        proof {
            assert(query@.take(i + 1).drop_last() =~= query@.take(i as int));
            assert(query@.take(i + 1).last() == c);
        }
        if c == '%' || c == '_' {
            out.push('\\');
        }
        out.push(c);
        proof {
            assert(out@ =~= seq!['%'] + escape_like(query@.take(i + 1)));
        }
        i = i + 1;
    }
    out.push('%');
    proof {
        assert(query@.take(n as int) =~= query@);
    }
    out
}

/// How many history entries a search returns: between 1 and 200.
/// The number of history entries a search returns at most.
pub open spec fn history_limit_of(limit: u16) -> u16 {
    if limit < 1 {
        1
    } else if limit > MAX_HISTORY_RESULTS {
        MAX_HISTORY_RESULTS
    } else {
        limit
    }
}

/// Whether a history entry is within a search's scope and filters.
pub open spec fn is_history_match(
    h: InputHistory,
    project_id: Seq<char>,
    terminal_id: Option<Seq<char>>,
    thread_id: Option<Seq<char>>,
    kind: Option<Seq<char>>,
) -> bool {
    &&& h.project_id@ == project_id
    &&& matches_filter(opt_view(h.terminal_id), terminal_id)
    &&& matches_filter(opt_view(h.thread_id), thread_id)
    &&& matches_filter(Some(h.kind@), kind)
}

pub fn history_limit(limit: u16) -> (r: u16)
    ensures
        r == history_limit_of(limit),
        1 <= r <= MAX_HISTORY_RESULTS,
        1 <= limit <= MAX_HISTORY_RESULTS ==> r == limit,
        limit == 0 ==> r == 1,
        limit > MAX_HISTORY_RESULTS ==> r == MAX_HISTORY_RESULTS,
{
    if limit < 1 {
        1
    } else if limit > MAX_HISTORY_RESULTS {
        MAX_HISTORY_RESULTS
    } else {
        limit
    }
}

/// A history kind the runtime records.
pub open spec fn is_history_kind(kind: Seq<char>) -> bool {
    kind == "shell"@ || kind == "prompt"@
}

// ---------------------------------------------------------------------------
// Stored rows.

pub open spec fn settings_row(row: Seq<Cell>) -> bool {
    row.len() == 6 && is_text(row[0]) && is_text(row[1]) && is_opt_text(row[2]) && is_text(row[3])
        && is_text(row[4]) && is_int(row[5])
}

/// The settings a stored row holds.
pub open spec fn decodes_settings(row: Seq<Cell>, s: ProjectSettings) -> bool {
    s.project_id@ == text_of(row[0]) && s.runtime@ == text_of(row[1]) && opt_view(
        s.default_account_id,
    ) == opt_text_of(row[2]) && s.default_model@ == text_of(row[3]) && s.reasoning@ == text_of(
        row[4],
    ) && s.updated_at == int_of(row[5])
}

/// The defaults of a project that never saved settings.
pub open spec fn is_default_settings(s: ProjectSettings, project_id: Seq<char>) -> bool {
    s.project_id@ == project_id && s.runtime@ == "codex"@ && s.default_account_id is None
        && s.default_model@ == "gpt-5.6-sol"@ && s.reasoning@ == "high"@ && s.updated_at == 0
}

/// Project settings from `project_id, runtime, default_account_id,
/// default_model, reasoning, updated_at`.
pub fn decode_settings(row: &Vec<Cell>) -> (r: CoreResult<ProjectSettings>)
    ensures
        r is Ok <==> settings_row(row@),
        r matches Ok(s) ==> decodes_settings(row@, s),
        r matches Err(e) ==> is_storage_failure(e),
{
    if row.len() != 6 {
        return Err(CoreError::new("STORAGE_FAILURE", "a durable storage operation failed"));
    }
    Ok(
        ProjectSettings {
            project_id: text_cell(row, 0)?,
            runtime: text_cell(row, 1)?,
            default_account_id: opt_text_cell(row, 2)?,
            default_model: text_cell(row, 3)?,
            reasoning: text_cell(row, 4)?,
            updated_at: int_cell(row, 5)?,
        },
    )
}

/// The settings of a project that never saved any.
pub fn default_settings(project_id: &str) -> (r: ProjectSettings)
    ensures
        r.project_id@ == project_id@,
        r.runtime@ == "codex"@,
        r.default_account_id is None,
        r.default_model@ == "gpt-5.6-sol"@,
        r.reasoning@ == "high"@,
        r.updated_at == 0,
{
    ProjectSettings {
        project_id: String::from_str(project_id),
        runtime: String::from_str("codex"),
        default_account_id: None,
        default_model: String::from_str("gpt-5.6-sol"),
        reasoning: String::from_str("high"),
        updated_at: 0,
    }
}

pub open spec fn preset_row(row: Seq<Cell>) -> bool {
    row.len() == 9 && is_text(row[0]) && is_text(row[1]) && is_text(row[2]) && is_text(row[3])
        && is_text(row[4]) && is_text(row[5]) && is_text(row[6]) && is_int(row[7]) && is_int(row[8])
}

/// The command preset a well-formed row holds.
pub open spec fn decodes_preset(row: Seq<Cell>, p: CommandPreset) -> bool {
    p.preset_id@ == text_of(row[0]) && p.project_id@ == text_of(row[1]) && p.name@ == text_of(row[2])
        && p.description@ == text_of(row[3]) && p.terminal_kind@ == text_of(row[4])
        && p.working_directory@ == text_of(row[5]) && p.command@ == text_of(row[6]) && p.created_at
        == int_of(row[7]) && p.updated_at == int_of(row[8])
}

/// A command preset from `preset_id, project_id, name, description,
/// terminal_kind, working_directory, command_text, created_at, updated_at`.
pub fn decode_preset(row: &Vec<Cell>) -> (r: CoreResult<CommandPreset>)
    ensures
        r is Ok <==> preset_row(row@),
        r matches Ok(p) ==> decodes_preset(row@, p),
        r matches Err(e) ==> is_storage_failure(e),
{
    if row.len() != 9 {
        return Err(CoreError::new("STORAGE_FAILURE", "a durable storage operation failed"));
    }
    Ok(
        CommandPreset {
            preset_id: text_cell(row, 0)?,
            project_id: text_cell(row, 1)?,
            name: text_cell(row, 2)?,
            description: text_cell(row, 3)?,
            terminal_kind: text_cell(row, 4)?,
            working_directory: text_cell(row, 5)?,
            command: text_cell(row, 6)?,
            created_at: int_cell(row, 7)?,
            updated_at: int_cell(row, 8)?,
        },
    )
}

pub open spec fn history_row(row: Seq<Cell>) -> bool {
    row.len() == 7 && is_text(row[0]) && is_text(row[1]) && is_opt_text(row[2]) && is_opt_text(row[3])
        && is_text(row[4]) && is_text(row[5]) && is_int(row[6])
}

/// The history entry a well-formed row holds.
pub open spec fn decodes_history(row: Seq<Cell>, h: InputHistory) -> bool {
    h.history_id@ == text_of(row[0]) && h.project_id@ == text_of(row[1]) && opt_view(h.terminal_id)
        == opt_text_of(row[2]) && opt_view(h.thread_id) == opt_text_of(row[3]) && h.kind@ == text_of(
        row[4],
    ) && h.input_text@ == text_of(row[5]) && h.created_at == int_of(row[6])
}

/// A history entry from `history_id, project_id, terminal_id, thread_id,
/// kind, input_text, created_at`.
pub fn decode_history(row: &Vec<Cell>) -> (r: CoreResult<InputHistory>)
    ensures
        r is Ok <==> history_row(row@),
        r matches Ok(h) ==> decodes_history(row@, h),
        r matches Err(e) ==> is_storage_failure(e),
{
    if row.len() != 7 {
        return Err(CoreError::new("STORAGE_FAILURE", "a durable storage operation failed"));
    }
    Ok(
        InputHistory {
            history_id: text_cell(row, 0)?,
            project_id: text_cell(row, 1)?,
            terminal_id: opt_text_cell(row, 2)?,
            thread_id: opt_text_cell(row, 3)?,
            kind: text_cell(row, 4)?,
            input_text: text_cell(row, 5)?,
            created_at: int_cell(row, 6)?,
        },
    )
}

/// A project template as stored: its presets are kept as the JSON text they
/// were saved with.
#[derive(Debug, Clone, PartialEq, Eq)]
pub struct StoredTemplate {
    pub template_id: String,
    pub name: String,
    pub description: String,
    pub default_model: String,
    pub reasoning: String,
    pub terminal_presets_json: String,
    pub command_presets_json: String,
    pub created_at: i64,
    pub updated_at: i64,
}

pub open spec fn template_row(row: Seq<Cell>) -> bool {
    row.len() == 9 && is_text(row[0]) && is_text(row[1]) && is_text(row[2]) && is_text(row[3])
        && is_text(row[4]) && is_text(row[5]) && is_text(row[6]) && is_int(row[7]) && is_int(row[8])
}

/// The stored template a well-formed row holds.
pub open spec fn decodes_template(row: Seq<Cell>, t: StoredTemplate) -> bool {
    t.template_id@ == text_of(row[0]) && t.name@ == text_of(row[1]) && t.description@ == text_of(row[2])
        && t.default_model@ == text_of(row[3]) && t.reasoning@ == text_of(row[4])
        && t.terminal_presets_json@ == text_of(row[5]) && t.command_presets_json@ == text_of(row[6])
        && t.created_at == int_of(row[7]) && t.updated_at == int_of(row[8])
}

/// A stored template from `template_id, name, description, default_model,
/// reasoning, terminal_presets_json, command_presets_json, created_at,
/// updated_at`.
pub fn decode_template(row: &Vec<Cell>) -> (r: CoreResult<StoredTemplate>)
    ensures
        r is Ok <==> template_row(row@),
        r matches Ok(t) ==> decodes_template(row@, t),
        r matches Err(e) ==> is_storage_failure(e),
{
    if row.len() != 9 {
        return Err(CoreError::new("STORAGE_FAILURE", "a durable storage operation failed"));
    }
    Ok(
        StoredTemplate {
            template_id: text_cell(row, 0)?,
            name: text_cell(row, 1)?,
            description: text_cell(row, 2)?,
            default_model: text_cell(row, 3)?,
            reasoning: text_cell(row, 4)?,
            terminal_presets_json: text_cell(row, 5)?,
            command_presets_json: text_cell(row, 6)?,
            created_at: int_cell(row, 7)?,
            updated_at: int_cell(row, 8)?,
        },
    )
}

/// An error that is a storage failure or one of the named codes.
pub open spec fn is_workbench_error(e: CoreError) -> bool {
    is_storage_failure(e) || e.code@ == "NOT_FOUND"@ || e.code@ == "INVALID_REQUEST"@ || e.code@
        == "PATH_REJECTED"@ || e.code@ == "SENSITIVE_CONTENT_REJECTED"@
}

/// A deletion by identifier must remove exactly one row.
pub fn check_deleted_one(changed: usize, message: &str) -> (r: CoreResult<()>)
    ensures
        r is Ok <==> changed == 1,
        r matches Err(e) ==> e.code@ == "NOT_FOUND"@ && e.message@ == message@,
{
    if changed == 1 {
        Ok(())
    } else {
        Err(CoreError::new("NOT_FOUND", message))
    }
}

// ---------------------------------------------------------------------------
// Stored operations.

pub const SETTINGS_QUERY: &'static str = "SELECT project_id,runtime,default_account_id,default_model,reasoning,updated_at FROM project_settings WHERE project_id=?";

pub const PRESETS_QUERY: &'static str = "SELECT preset_id,project_id,name,description,terminal_kind,working_directory,command_text,created_at,updated_at FROM command_presets WHERE project_id=? ORDER BY name,preset_id";

pub const PRESET_QUERY: &'static str = "SELECT preset_id,project_id,name,description,terminal_kind,working_directory,command_text,created_at,updated_at FROM command_presets WHERE preset_id=?";

pub const TEMPLATES_QUERY: &'static str = "SELECT template_id,name,description,default_model,reasoning,terminal_presets_json,command_presets_json,created_at,updated_at FROM project_templates ORDER BY name,template_id";

pub const TEMPLATE_QUERY: &'static str = "SELECT template_id,name,description,default_model,reasoning,terminal_presets_json,command_presets_json,created_at,updated_at FROM project_templates WHERE template_id=?";

pub const HISTORY_SEARCH_QUERY: &'static str = "SELECT history_id,project_id,terminal_id,thread_id,kind,input_text,created_at FROM input_history WHERE project_id=? AND (?2 IS NULL OR terminal_id=?2) AND (?3 IS NULL OR thread_id=?3) AND (?4 IS NULL OR kind=?4) AND input_text LIKE ?5 ESCAPE '\\' ORDER BY created_at DESC,history_id LIMIT ?6";

pub const SETTINGS_UPSERT: &'static str = "INSERT INTO project_settings(project_id,runtime,default_account_id,default_model,reasoning,updated_at) VALUES(?,'codex',?,?,?,?) ON CONFLICT(project_id) DO UPDATE SET default_account_id=excluded.default_account_id,default_model=excluded.default_model,reasoning=excluded.reasoning,updated_at=excluded.updated_at";

pub const TEMPLATE_UPSERT: &'static str = "INSERT INTO project_templates(template_id,name,description,default_model,reasoning,terminal_presets_json,command_presets_json,created_at,updated_at) VALUES(?,?,?,?,?,?,?,?,?) ON CONFLICT(template_id) DO UPDATE SET name=excluded.name,description=excluded.description,default_model=excluded.default_model,reasoning=excluded.reasoning,terminal_presets_json=excluded.terminal_presets_json,command_presets_json=excluded.command_presets_json,updated_at=excluded.updated_at";

pub const TEMPLATE_DELETE: &'static str = "DELETE FROM project_templates WHERE template_id=?";

pub const PRESET_UPSERT: &'static str = "INSERT INTO command_presets(preset_id,project_id,name,description,terminal_kind,working_directory,command_text,created_at,updated_at) VALUES(?,?,?,?,?,?,?,?,?) ON CONFLICT(preset_id) DO UPDATE SET name=excluded.name,description=excluded.description,terminal_kind=excluded.terminal_kind,working_directory=excluded.working_directory,command_text=excluded.command_text,updated_at=excluded.updated_at";

pub const PRESET_DELETE: &'static str = "DELETE FROM command_presets WHERE preset_id=?";

pub const HISTORY_INSERT: &'static str = "INSERT INTO input_history(history_id,project_id,terminal_id,thread_id,kind,input_text,created_at) VALUES(?,?,?,?,?,?,?)";

pub const HISTORY_DELETE: &'static str = "DELETE FROM input_history WHERE history_id=?";

pub const HISTORY_CLEAR: &'static str = "DELETE FROM input_history WHERE project_id=?";

/// The upsert of a project's settings.
pub open spec fn is_settings_upsert(
    st: (Seq<char>, Seq<SqlParam>),
    project_id: Seq<char>,
    default_account_id: Option<Seq<char>>,
    default_model: Seq<char>,
    reasoning: Seq<char>,
) -> bool {
    &&& st.0 == SETTINGS_UPSERT@ && st.1.len() == 5
    &&& text_is(st.1[0], project_id) && opt_text_is(st.1[1], default_account_id)
    &&& text_is(st.1[2], default_model) && text_is(st.1[3], reasoning) && is_int_param(st.1[4])
}

/// The upsert of a template under `template_id`, or a fresh identifier for
/// none; name and description are stored trimmed.
pub open spec fn is_template_upsert(
    st: (Seq<char>, Seq<SqlParam>),
    template_id: Option<Seq<char>>,
    name: Seq<char>,
    description: Seq<char>,
    default_model: Seq<char>,
    reasoning: Seq<char>,
    terminal_presets_json: Seq<char>,
    command_presets_json: Seq<char>,
) -> bool {
    &&& st.0 == TEMPLATE_UPSERT@ && st.1.len() == 9
    &&& match template_id {
        Some(id) => text_is(st.1[0], id),
        None => st.1[0] matches SqlParam::Text(i) && is_fresh_id("template"@, i@),
    }
    &&& text_is(st.1[1], trim(name)) && text_is(st.1[2], trim(description))
    &&& text_is(st.1[3], default_model) && text_is(st.1[4], reasoning)
    &&& text_is(st.1[5], terminal_presets_json) && text_is(st.1[6], command_presets_json)
    &&& is_int_param(st.1[7]) && st.1[8] == st.1[7]
}

/// The upsert of a command preset under `preset_id`, or a fresh identifier
/// for none; name and description are stored trimmed.
pub open spec fn is_preset_upsert(
    st: (Seq<char>, Seq<SqlParam>),
    preset_id: Option<Seq<char>>,
    project_id: Seq<char>,
    name: Seq<char>,
    description: Seq<char>,
    terminal_kind: Seq<char>,
    working_directory: Seq<char>,
    command: Seq<char>,
) -> bool {
    &&& st.0 == PRESET_UPSERT@ && st.1.len() == 9
    &&& match preset_id {
        Some(id) => text_is(st.1[0], id),
        None => st.1[0] matches SqlParam::Text(i) && is_fresh_id("preset"@, i@),
    }
    &&& text_is(st.1[1], project_id) && text_is(st.1[2], trim(name))
    &&& text_is(st.1[3], trim(description)) && text_is(st.1[4], terminal_kind)
    &&& text_is(st.1[5], working_directory) && text_is(st.1[6], command)
    &&& is_int_param(st.1[7]) && st.1[8] == st.1[7]
}

/// The insert of a history entry, exactly as it is returned.
pub open spec fn is_history_insert(st: (Seq<char>, Seq<SqlParam>), h: InputHistory) -> bool {
    &&& st.0 == HISTORY_INSERT@ && st.1.len() == 7
    &&& text_is(st.1[0], h.history_id@) && text_is(st.1[1], h.project_id@)
    &&& opt_text_is(st.1[2], opt_view(h.terminal_id)) && opt_text_is(st.1[3], opt_view(h.thread_id))
    &&& text_is(st.1[4], h.kind@) && text_is(st.1[5], h.input_text@) && int_is(st.1[6], h.created_at)
}

/// The upsert of one of a template's command presets into a project, under
/// whichever identifier the preset of that name already had.
pub open spec fn is_preset_of(
    st: (Seq<char>, Seq<SqlParam>),
    project_id: Seq<char>,
    p: CommandPresetTemplate,
) -> bool {
    exists|id: Option<Seq<char>>|
        #[trigger] is_preset_upsert(
            st,
            id,
            project_id,
            p.name@,
            p.description@,
            p.terminal_kind@,
            p.working_directory@,
            p.command@,
        )
}

/// The statements, issued after `before`, that apply a template to a
/// project: its settings upserted, then each of the template's presets in
/// order.
pub open spec fn is_template_application(
    before: Seq<(Seq<char>, Seq<SqlParam>)>,
    after: Seq<(Seq<char>, Seq<SqlParam>)>,
    project_id: Seq<char>,
    presets: Seq<CommandPresetTemplate>,
) -> bool {
    let o = before.len() as int;
    &&& after.len() == o + 1 + presets.len()
    &&& exists|account: Option<Seq<char>>, model: Seq<char>, level: Seq<char>|
        #[trigger] is_settings_upsert(after[o], project_id, account, model, level)
    &&& forall|j: int|
        0 <= j < presets.len() ==> is_preset_of(#[trigger] after[o + 1 + j], project_id, presets[j])
}

/// A delete by one identifier.
pub open spec fn is_delete_by(st: (Seq<char>, Seq<SqlParam>), sql: Seq<char>, id: Seq<char>) -> bool {
    st.0 == sql && st.1.len() == 1 && text_is(st.1[0], id)
}

/// `v` is what the rows decode to, one for one and in order.
pub open spec fn all_decode_template(rows: Seq<Seq<Cell>>, v: Seq<StoredTemplate>) -> bool {
    v.len() == rows.len() && forall|i: int|
        0 <= i < v.len() ==> template_row(rows[i]) && decodes_template(rows[i], #[trigger] v[i])
}

/// `v` is what the rows decode to, one for one and in order.
pub open spec fn all_decode_preset(rows: Seq<Seq<Cell>>, v: Seq<CommandPreset>) -> bool {
    v.len() == rows.len() && forall|i: int|
        0 <= i < v.len() ==> preset_row(rows[i]) && decodes_preset(rows[i], #[trigger] v[i])
}

/// `v` is what the rows decode to, one for one and in order.
pub open spec fn all_decode_history(rows: Seq<Seq<Cell>>, v: Seq<InputHistory>) -> bool {
    v.len() == rows.len() && forall|i: int|
        0 <= i < v.len() ==> history_row(rows[i]) && decodes_history(rows[i], #[trigger] v[i])
}

/// Whether template `a` comes before `b`: by name, then by identifier.
pub open spec fn template_precedes(a: StoredTemplate, b: StoredTemplate) -> bool {
    text_before(a.name@, b.name@) || (a.name@ == b.name@ && text_before(a.template_id@, b.template_id@))
}

/// The templates at `i` and `i + 1` are in order.
pub open spec fn templates_ordered_at(v: Seq<StoredTemplate>, i: int) -> bool {
    template_precedes(v[i], v[i + 1])
}

fn template_before(a: &StoredTemplate, b: &StoredTemplate) -> (r: bool)
    ensures
        r ==> template_precedes(*a, *b),
{
    str_before(a.name.as_str(), b.name.as_str()) || (str_eq(a.name.as_str(), b.name.as_str())
        && str_before(a.template_id.as_str(), b.template_id.as_str()))
}

/// Whether command preset `a` comes before `b`: by name, then by identifier.
pub open spec fn preset_precedes(a: CommandPreset, b: CommandPreset) -> bool {
    text_before(a.name@, b.name@) || (a.name@ == b.name@ && text_before(a.preset_id@, b.preset_id@))
}

/// The presets at `i` and `i + 1` are in order.
pub open spec fn presets_ordered_at(v: Seq<CommandPreset>, i: int) -> bool {
    preset_precedes(v[i], v[i + 1])
}

fn preset_before(a: &CommandPreset, b: &CommandPreset) -> (r: bool)
    ensures
        r ==> preset_precedes(*a, *b),
{
    str_before(a.name.as_str(), b.name.as_str()) || (str_eq(a.name.as_str(), b.name.as_str())
        && str_before(a.preset_id.as_str(), b.preset_id.as_str()))
}

/// Whether history entry `a` comes before `b`: newer first, then by
/// identifier.
pub open spec fn history_precedes(a: InputHistory, b: InputHistory) -> bool {
    a.created_at > b.created_at || (a.created_at == b.created_at && text_before(a.history_id@, b.history_id@))
}

/// The entries at `i` and `i + 1` are in order.
pub open spec fn history_ordered_at(v: Seq<InputHistory>, i: int) -> bool {
    history_precedes(v[i], v[i + 1])
}

fn history_before(a: &InputHistory, b: &InputHistory) -> (r: bool)
    ensures
        r ==> history_precedes(*a, *b),
{
    a.created_at > b.created_at || (a.created_at == b.created_at && str_before(
        a.history_id.as_str(),
        b.history_id.as_str(),
    ))
}

/// Query `a` was the history search of project `project_id` with these
/// filters, the pattern made of `query`, and the clamped limit.
pub open spec fn is_history_search(
    a: (Seq<char>, Seq<SqlParam>, Seq<Seq<Cell>>),
    project_id: Seq<char>,
    terminal_id: Option<Seq<char>>,
    thread_id: Option<Seq<char>>,
    kind: Option<Seq<char>>,
    query: Seq<char>,
    limit: u16,
) -> bool {
    &&& a.0 == HISTORY_SEARCH_QUERY@ && a.1.len() == 6
    &&& text_is(a.1[0], project_id) && opt_text_is(a.1[1], terminal_id)
    &&& opt_text_is(a.1[2], thread_id) && opt_text_is(a.1[3], kind)
    &&& text_is(a.1[4], seq!['%'] + escape_like(query) + seq!['%'])
    &&& a.1[5] == SqlParam::Integer(history_limit_of(limit) as i64)
}

/// A project's settings, or the defaults when none were saved.
pub fn project_settings(storage: &mut Storage, project_id: &str) -> (r: CoreResult<ProjectSettings>)
    ensures
        read_from(*old(storage), *final(storage)),
        !is_valid_id(project_id.spec_bytes()) ==> (r matches Err(e) && e.code@ == "INVALID_REQUEST"@),
        r matches Ok(s) ==> is_valid_id(project_id.spec_bytes()) && asked_with(
            final(storage).queried().last(),
            SETTINGS_QUERY@,
            seq![project_id@],
        ) && ((last_rows(final(storage).queried()).len() == 0 && is_default_settings(s, project_id@))
            || (last_rows(final(storage).queried()).len() > 0 && settings_row(
            last_rows(final(storage).queried())[0],
        ) && decodes_settings(last_rows(final(storage).queried())[0], s))),
        r matches Err(e) ==> is_workbench_error(e),
{
    validate_id(project_id)?;
    storage.project(project_id)?;
    let rows = storage.query_by_id(SETTINGS_QUERY, project_id, 6)?;
    if rows.len() == 0 {
        return Ok(default_settings(project_id));
    }
    let settings = decode_settings(&rows[0]);
    proof {
        assert(last_rows(storage.queried())[0] == rows@[0]@);
    }
    settings
}

/// Saves a project's defaults after checking each of them.
pub fn save_project_settings(
    storage: &mut Storage,
    project_id: &str,
    default_account_id: Option<&str>,
    default_model: &str,
    reasoning: &str,
) -> (r: CoreResult<ProjectSettings>)
    ensures
        final(storage).spec_layout() == old(storage).spec_layout(),
        final(storage).issued() == old(storage).issued() || (final(storage).issued() == old(
            storage,
        ).issued().push(final(storage).issued().last()) && is_settings_upsert(
            final(storage).issued().last(),
            project_id@,
            opt_str_view(default_account_id),
            default_model@,
            reasoning@,
        )),
        r is Ok ==> is_valid_id(project_id.spec_bytes()) && is_model(default_model.spec_bytes())
            && is_reasoning(reasoning@) && final(storage).issued().len() == old(storage).issued().len()
            + 1,
        reads_grown(old(storage).queried(), final(storage).queried()),
        r matches Err(e) ==> is_workbench_error(e),
{
    validate_id(project_id)?;
    storage.project(project_id)?;
    match default_account_id {
        Some(account_id) => {
            validate_id(account_id)?;
            storage.account(account_id)?;
        },
        None => {},
    }
    validate_model(default_model)?;
    validate_reasoning(reasoning)?;
    let params = [
        text_param(project_id),
        opt_text_param(default_account_id),
        text_param(default_model),
        text_param(reasoning),
        SqlParam::Integer(now()),
    ];
    storage.execute(SETTINGS_UPSERT, &params)?;
    project_settings(storage, project_id)
}

/// Every stored template, by name, its presets as the JSON text they were
/// saved with.
pub fn list_templates(storage: &mut Storage) -> (r: CoreResult<Vec<StoredTemplate>>)
    ensures
        read_from(*old(storage), *final(storage)),
        r is Ok ==> answered(old(storage).queried(), final(storage).queried(), TEMPLATES_QUERY@, seq![]),
        r matches Ok(v) ==> all_decode_template(last_rows(final(storage).queried()), v@),
        r matches Ok(v) ==> forall|i: int| 0 <= i < v@.len() - 1 ==> #[trigger] templates_ordered_at(v@, i),
        r matches Err(e) ==> is_storage_failure(e),
{
    let rows = storage.query(TEMPLATES_QUERY, &[], 9)?;
    let ghost q = storage.queried();
    let mut out: Vec<StoredTemplate> = Vec::new();
    let mut k: usize = 0;
    while k < rows.len()
        invariant
            read_from(*old(storage), *storage),
            storage.queried() == q,
            forall|i: int| 0 <= i < k - 1 ==> #[trigger] templates_ordered_at(out@, i),
            k <= rows@.len(),
            forall|i: int| 0 <= i < rows@.len() ==> #[trigger] rows@[i]@.len() == 9,
            out@.len() == k,
            forall|j: int| 0 <= j < k ==> template_row(#[trigger] rows@[j]@),
            forall|j: int| 0 <= j < k ==> decodes_template(rows@[j]@, #[trigger] out@[j]),
        decreases rows@.len() - k,
    {
        let item = decode_template(&rows[k])?;
        if k > 0 {
            check_answer(template_before(&out[k - 1], &item))?;
        }
        let ghost before = out@;
        out.push(item);
        proof {
            assert forall|i: int| 0 <= i < k implies #[trigger] templates_ordered_at(out@, i) by {
                assert(out@[i] == before[i]);
                if i < k - 1 {
                    assert(templates_ordered_at(before, i));
                    assert(out@[i + 1] == before[i + 1]);
                } else {
                    assert(out@[i + 1] == item);
                }
            }
        }
        k = k + 1;
    }
    proof {
        assert forall|i: int| 0 <= i < out@.len() implies template_row(last_rows(storage.queried())[i])
            && decodes_template(last_rows(storage.queried())[i], #[trigger] out@[i]) by {
            assert(last_rows(storage.queried())[i] == rows@[i]@);
        }
    }
    Ok(out)
}

/// Refuses rows that do not answer what was asked of the store.
fn check_answer(answers: bool) -> (r: CoreResult<()>)
    ensures
        r is Ok <==> answers,
        r matches Err(e) ==> is_storage_failure(e),
{
    if answers {
        Ok(())
    } else {
        Err(CoreError::new("STORAGE_FAILURE", "a durable storage operation failed"))
    }
}

/// Whether an optional stored value matches an optional filter: no filter
/// matches anything.
pub open spec fn matches_filter(value: Option<Seq<char>>, filter: Option<Seq<char>>) -> bool {
    match filter {
        Some(f) => value == Some(f),
        None => true,
    }
}

fn filter_matches(value: &Option<String>, filter: Option<&str>) -> (r: bool)
    ensures
        r == matches_filter(opt_view(*value), opt_str_view(filter)),
{
    match filter {
        Some(f) => match value {
            Some(v) => str_eq(v.as_str(), f),
            None => false,
        },
        None => true,
    }
}

/// One stored template.
pub fn stored_template(storage: &mut Storage, template_id: &str) -> (r: CoreResult<StoredTemplate>)
    ensures
        read_from(*old(storage), *final(storage)),
        !is_valid_id(template_id.spec_bytes()) ==> (r matches Err(e) && e.code@ == "INVALID_REQUEST"@),
        r is Ok ==> is_valid_id(template_id.spec_bytes()),
        r matches Ok(t) ==> t.template_id@ == template_id@,
        r matches Ok(t) ==> answered(old(storage).queried(), final(storage).queried(), TEMPLATE_QUERY@, seq![template_id@])
            && last_rows(final(storage).queried()).len() > 0 && template_row(last_rows(final(storage).queried())[0])
            && decodes_template(last_rows(final(storage).queried())[0], t),
        r matches Err(e) && e.code@ == "NOT_FOUND"@ ==> answered(
            old(storage).queried(),
            final(storage).queried(),
            TEMPLATE_QUERY@,
            seq![template_id@],
        ) && last_rows(final(storage).queried()).len() == 0,
        r matches Err(e) ==> is_workbench_error(e),
{
    proof {
        reveal_strlit("NOT_FOUND");
        reveal_strlit("STORAGE_FAILURE");
        reveal_strlit("INVALID_REQUEST");
        assert("NOT_FOUND"@[0] != "STORAGE_FAILURE"@[0]);
        assert("NOT_FOUND"@[0] != "INVALID_REQUEST"@[0]);
    }
    validate_id(template_id)?;
    let rows = storage.query_by_id(TEMPLATE_QUERY, template_id, 9)?;
    if rows.len() == 0 {
        return Err(CoreError::new("NOT_FOUND", "project template was not found"));
    }
    let template = decode_template(&rows[0])?;
    check_answer(str_eq(template.template_id.as_str(), template_id))?;
    Ok(template)
}

/// Whether a template with these fields may be saved: text within bounds, a
/// valid model and reasoning, at most 12 terminal presets and 50 command
/// presets, each valid.
pub fn validate_template(
    name: &str,
    description: &str,
    default_model: &str,
    reasoning: &str,
    terminal_presets: &Vec<crate::model::TerminalPresetTemplate>,
    command_presets: &Vec<CommandPresetTemplate>,
) -> (r: CoreResult<()>)
    ensures
        r is Ok ==> is_acceptable_text(name@, 120, false) && is_acceptable_text(description@, 500, true)
            && is_model(default_model.spec_bytes()) && is_reasoning(reasoning@)
            && terminal_presets@.len() <= 12 && command_presets@.len() <= 50 && (forall|i: int|
            0 <= i < command_presets@.len() ==> is_valid_command_template(
                #[trigger] command_presets@[i],
            )) && (forall|i: int|
            0 <= i < terminal_presets@.len() ==> is_terminal_kind(
                #[trigger] terminal_presets@[i].kind@,
            )),
        r matches Err(e) ==> is_workbench_error(e),
{
    validate_text(name, MAX_NAME, false, "template name")?;
    validate_text(description, MAX_DESCRIPTION, true, "template description")?;
    validate_model(default_model)?;
    validate_reasoning(reasoning)?;
    if terminal_presets.len() > 12 || command_presets.len() > 50 {
        return Err(CoreError::new("INVALID_REQUEST", "template preset limit exceeded"));
    }
    let mut i: usize = 0;
    while i < terminal_presets.len()
        invariant
            i <= terminal_presets@.len(),
            forall|j: int| 0 <= j < i ==> is_terminal_kind(#[trigger] terminal_presets@[j].kind@),
        decreases terminal_presets@.len() - i,
    {
        validate_text(terminal_presets[i].name.as_str(), MAX_NAME, false, "Terminal preset name")?;
        validate_terminal_kind(terminal_presets[i].kind.as_str())?;
        i = i + 1;
    }
    let mut k: usize = 0;
    while k < command_presets.len()
        invariant
            k <= command_presets@.len(),
            forall|j: int| 0 <= j < k ==> is_valid_command_template(#[trigger] command_presets@[j]),
        decreases command_presets@.len() - k,
    {
        validate_command_template(&command_presets[k])?;
        k = k + 1;
    }
    Ok(())
}

/// Stores a template's row; a new template gets a fresh identifier.
fn store_template(
    storage: &mut Storage,
    template_id: Option<&str>,
    name: &str,
    description: &str,
    default_model: &str,
    reasoning: &str,
    terminal_presets_json: &str,
    command_presets_json: &str,
) -> (r: CoreResult<StoredTemplate>)
    ensures
        final(storage).spec_layout() == old(storage).spec_layout(),
        final(storage).issued() == old(storage).issued() || (final(storage).issued() == old(
            storage,
        ).issued().push(final(storage).issued().last()) && is_template_upsert(
            final(storage).issued().last(),
            opt_str_view(template_id),
            name@,
            description@,
            default_model@,
            reasoning@,
            terminal_presets_json@,
            command_presets_json@,
        )),
        template_id matches Some(v) ==> (!is_valid_id(v.spec_bytes()) ==> (r matches Err(e)
            && e.code@ == "INVALID_REQUEST"@ && final(storage).issued() == old(storage).issued())),
        r is Ok ==> (template_id matches Some(v) ==> is_valid_id(v.spec_bytes()))
            && final(storage).issued().len() == old(storage).issued().len() + 1,
        reads_grown(old(storage).queried(), final(storage).queried()),
        r matches Err(e) ==> is_workbench_error(e),
{
    let template_id = match template_id {
        Some(value) => {
            validate_id(value)?;
            value.to_string()
        },
        None => fresh_id("template"),
    };
    let timestamp = now();
    let params = [
        text_param(template_id.as_str()),
        text_param(trim_str(name)),
        text_param(trim_str(description)),
        text_param(default_model),
        text_param(reasoning),
        text_param(terminal_presets_json),
        text_param(command_presets_json),
        SqlParam::Integer(timestamp),
        SqlParam::Integer(timestamp),
    ];
    storage.execute(TEMPLATE_UPSERT, &params)?;
    stored_template(storage, template_id.as_str())
}

/// Saves a template once its fields and presets pass `validate_template`;
/// the presets are stored as the JSON text given for them.
pub fn save_template(
    storage: &mut Storage,
    template_id: Option<&str>,
    name: &str,
    description: &str,
    default_model: &str,
    reasoning: &str,
    terminal_presets: &Vec<crate::model::TerminalPresetTemplate>,
    command_presets: &Vec<CommandPresetTemplate>,
    terminal_presets_json: &str,
    command_presets_json: &str,
) -> (r: CoreResult<StoredTemplate>)
    ensures
        r is Ok ==> is_acceptable_text(name@, 120, false) && is_acceptable_text(description@, 500, true)
            && is_model(default_model.spec_bytes()) && is_reasoning(reasoning@)
            && terminal_presets@.len() <= 12 && command_presets@.len() <= 50 && (forall|i: int|
            0 <= i < command_presets@.len() ==> is_valid_command_template(
                #[trigger] command_presets@[i],
            )) && final(storage).issued().len() == old(storage).issued().len() + 1,
        final(storage).spec_layout() == old(storage).spec_layout(),
        final(storage).issued() == old(storage).issued() || (final(storage).issued() == old(
            storage,
        ).issued().push(final(storage).issued().last()) && is_template_upsert(
            final(storage).issued().last(),
            opt_str_view(template_id),
            name@,
            description@,
            default_model@,
            reasoning@,
            terminal_presets_json@,
            command_presets_json@,
        )),
        r matches Err(e) ==> is_workbench_error(e),
{
    validate_template(name, description, default_model, reasoning, terminal_presets, command_presets)?;
    store_template(
        storage,
        template_id,
        name,
        description,
        default_model,
        reasoning,
        terminal_presets_json,
        command_presets_json,
    )
}

/// The insert of a copy of the stored template row `row` under a fresh
/// identifier and the new name `name`: the row's description, model,
/// reasoning and presets are carried over unchanged.
pub open spec fn copies_template(st: (Seq<char>, Seq<SqlParam>), name: Seq<char>, row: Seq<Cell>) -> bool {
    is_template_upsert(
        st,
        None,
        name,
        text_of(row[2]),
        text_of(row[3]),
        text_of(row[4]),
        text_of(row[5]),
        text_of(row[6]),
    )
}

/// Copies a template under a new name and a fresh identifier, with its
/// description, defaults and presets; the copy's fields pass the same checks
/// as a saved template's.
pub fn copy_template(storage: &mut Storage, template_id: &str, name: &str) -> (r: CoreResult<
    StoredTemplate,
>)
    ensures
        !is_valid_id(template_id.spec_bytes()) ==> (r matches Err(e) && e.code@ == "INVALID_REQUEST"@
            && final(storage).issued() == old(storage).issued()),
        final(storage).spec_layout() == old(storage).spec_layout(),
        final(storage).issued() == old(storage).issued() || (final(storage).issued() == old(
            storage,
        ).issued().push(final(storage).issued().last()) && exists|
            description: Seq<char>,
            model: Seq<char>,
            reasoning: Seq<char>,
            terminal_json: Seq<char>,
            command_json: Seq<char>,
        |
            #[trigger] is_template_upsert(
                final(storage).issued().last(),
                None,
                name@,
                description,
                model,
                reasoning,
                terminal_json,
                command_json,
            )),
        r is Ok ==> is_acceptable_text(name@, 120, false) && final(storage).issued().len() == old(
            storage,
        ).issued().len() + 1,
        r is Ok ==> final(storage).queried().len() > old(storage).queried().len() && asked_with(
            final(storage).queried()[old(storage).queried().len() as int],
            TEMPLATE_QUERY@,
            seq![template_id@],
        ) && final(storage).queried()[old(storage).queried().len() as int].2.len() > 0 && template_row(
            final(storage).queried()[old(storage).queried().len() as int].2[0],
        ) && copies_template(
            final(storage).issued().last(),
            name@,
            final(storage).queried()[old(storage).queried().len() as int].2[0],
        ),
        r matches Err(e) ==> is_workbench_error(e),
{
    let source = stored_template(storage, template_id)?;
    let ghost qt = storage.queried();
    let ghost qo = old(storage).queried().len() as int;
    proof {
        assert(qt.last() == qt[qo]);
    }
    validate_text(name, MAX_NAME, false, "template name")?;
    validate_text(source.description.as_str(), MAX_DESCRIPTION, true, "template description")?;
    validate_model(source.default_model.as_str())?;
    validate_reasoning(source.reasoning.as_str())?;
    store_template(
        storage,
        None,
        name,
        source.description.as_str(),
        source.default_model.as_str(),
        source.reasoning.as_str(),
        source.terminal_presets_json.as_str(),
        source.command_presets_json.as_str(),
    )
}

pub fn delete_template(storage: &mut Storage, template_id: &str) -> (r: CoreResult<()>)
    ensures
        final(storage).spec_layout() == old(storage).spec_layout(),
        !is_valid_id(template_id.spec_bytes()) ==> (r matches Err(e) && e.code@ == "INVALID_REQUEST"@
            && final(storage).issued() == old(storage).issued()),
        final(storage).issued() == old(storage).issued() || (final(storage).issued() == old(
            storage,
        ).issued().push(final(storage).issued().last()) && is_delete_by(
            final(storage).issued().last(),
            TEMPLATE_DELETE@,
            template_id@,
        )),
        r is Ok ==> final(storage).issued().len() == old(storage).issued().len() + 1,
        r is Ok <==> final(storage).changes().len() == old(storage).changes().len() + 1
            && final(storage).changes().last() == 1,
        final(storage).changes() == old(storage).changes() || final(storage).changes() == old(
            storage,
        ).changes().push(final(storage).changes().last()),
        r matches Err(e) ==> is_workbench_error(e),
{
    validate_id(template_id)?;
    let params = [text_param(template_id)];
    let changed = storage.execute(TEMPLATE_DELETE, &params)?;
    check_deleted_one(changed, "project template was not found")
}

fn command_preset_id_by_name(storage: &mut Storage, project_id: &str, name: &str) -> (r: CoreResult<
    Option<String>,
>)
    ensures
        read_from(*old(storage), *final(storage)),
        r matches Err(e) ==> is_storage_failure(e),
{
    let params = [text_param(project_id), text_param(trim_str(name))];
    let rows = storage.query(
        "SELECT preset_id FROM command_presets WHERE project_id=? AND name=?",
        &params,
        1,
    )?;
    if rows.len() == 0 {
        return Ok(None);
    }
    Ok(Some(text_cell(&rows[0], 0)?))
}

/// The settings upsert of project `project_id` carries the model and the
/// reasoning of the stored template row `row`, whatever default account it
/// keeps.
pub open spec fn takes_template_settings(
    st: (Seq<char>, Seq<SqlParam>),
    project_id: Seq<char>,
    row: Seq<Cell>,
) -> bool {
    exists|account: Option<Seq<char>>|
        #[trigger] is_settings_upsert(st, project_id, account, text_of(row[3]), text_of(row[4]))
}

/// When the template row holds stored template `t`, a settings upsert that
/// takes the template's settings saves exactly `t`'s model and reasoning.
pub proof fn lemma_template_settings_are_the_templates(
    st: (Seq<char>, Seq<SqlParam>),
    project_id: Seq<char>,
    row: Seq<Cell>,
    t: StoredTemplate,
)
    requires
        takes_template_settings(st, project_id, row),
        decodes_template(row, t),
    ensures
        exists|account: Option<Seq<char>>|
            #[trigger] is_settings_upsert(st, project_id, account, t.default_model@, t.reasoning@),
        text_is(st.1[2], t.default_model@) && text_is(st.1[3], t.reasoning@),
{
    let account = choose|account: Option<Seq<char>>|
        #[trigger] is_settings_upsert(st, project_id, account, text_of(row[3]), text_of(row[4]));
    assert(is_settings_upsert(st, project_id, account, t.default_model@, t.reasoning@));
}

/// Applies a template to a project: the project's settings take the
/// template's model and reasoning, keeping their default account, and each of
/// the template's command presets (decoded from its stored JSON) is saved,
/// replacing a preset of the same name.
pub fn apply_template(
    storage: &mut Storage,
    project_id: &str,
    template_id: &str,
    presets: &Vec<CommandPresetTemplate>,
) -> (r: CoreResult<ProjectSettings>)
    ensures
        !is_valid_id(template_id.spec_bytes()) ==> (r matches Err(e) && e.code@ == "INVALID_REQUEST"@
            && final(storage).issued() == old(storage).issued()),
        final(storage).spec_layout() == old(storage).spec_layout(),
        grown(old(storage).issued(), final(storage).issued()),
        r is Ok ==> is_valid_id(project_id.spec_bytes()) && forall|i: int|
            0 <= i < presets@.len() ==> is_valid_command_template(#[trigger] presets@[i]),
        r is Ok ==> is_template_application(
            old(storage).issued(),
            final(storage).issued(),
            project_id@,
            presets@,
        ),
        r is Ok ==> final(storage).queried().len() > old(storage).queried().len() && asked_with(
            final(storage).queried()[old(storage).queried().len() as int],
            TEMPLATE_QUERY@,
            seq![template_id@],
        ) && final(storage).queried()[old(storage).queried().len() as int].2.len() > 0 && template_row(
            final(storage).queried()[old(storage).queried().len() as int].2[0],
        ) && takes_template_settings(
            final(storage).issued()[old(storage).issued().len() as int],
            project_id@,
            final(storage).queried()[old(storage).queried().len() as int].2[0],
        ),
        r matches Err(e) ==> is_workbench_error(e),
{
    let template = stored_template(storage, template_id)?;
    let ghost qt = storage.queried();
    let ghost qo = old(storage).queried().len() as int;
    let ghost row = qt[qo].2[0];
    proof {
        assert(qt.last() == qt[qo]);
    }
    let default_model = template.default_model.as_str();
    let reasoning = template.reasoning.as_str();
    let current = project_settings(storage, project_id)?;
    let account = as_opt_str(&current.default_account_id);
    let settings = save_project_settings(storage, project_id, account, default_model, reasoning)?;
    let ghost o = old(storage).issued().len() as int;
    proof {
        assert(storage.issued()[o] == storage.issued().last());
        assert(is_settings_upsert(
            storage.issued()[o],
            project_id@,
            opt_str_view(account),
            text_of(row[3]),
            text_of(row[4]),
        ));
        assert(reads_grown(qt, storage.queried()));
    }
    let mut k: usize = 0;
    while k < presets.len()
        invariant
            k <= presets@.len(),
            is_valid_id(template_id.spec_bytes()),
            is_valid_id(project_id.spec_bytes()),
            is_model(default_model.spec_bytes()) && is_reasoning(reasoning@),
            forall|j: int| 0 <= j < k ==> is_valid_command_template(#[trigger] presets@[j]),
            o == old(storage).issued().len(),
            storage.spec_layout() == old(storage).spec_layout(),
            grown(old(storage).issued(), storage.issued()),
            storage.issued().len() == o + 1 + k,
            exists|account: Option<Seq<char>>, model: Seq<char>, level: Seq<char>|
                #[trigger] is_settings_upsert(storage.issued()[o], project_id@, account, model, level),
            forall|j: int|
                0 <= j < k ==> is_preset_of(#[trigger] storage.issued()[o + 1 + j], project_id@, presets@[j]),
            qo == old(storage).queried().len(),
            qt.len() == qo + 1,
            reads_grown(qt, storage.queried()),
            asked_with(qt[qo], TEMPLATE_QUERY@, seq![template_id@]),
            qt[qo].2.len() > 0 && template_row(qt[qo].2[0]) && row == qt[qo].2[0],
            takes_template_settings(storage.issued()[o], project_id@, row),
        decreases presets@.len() - k,
    {
        let ghost before = storage.issued();
        let preset = &presets[k];
        let existing = command_preset_id_by_name(storage, project_id, preset.name.as_str())?;
        save_command_preset(
            storage,
            as_opt_str(&existing),
            project_id,
            preset.name.as_str(),
            preset.description.as_str(),
            preset.terminal_kind.as_str(),
            preset.working_directory.as_str(),
            preset.command.as_str(),
        )?;
        proof {
            assert(storage.issued()[o] == before[o]);
            assert forall|j: int| 0 <= j < k implies is_preset_of(
                #[trigger] storage.issued()[o + 1 + j],
                project_id@,
                presets@[j],
            ) by {
                assert(storage.issued()[o + 1 + j] == before[o + 1 + j]);
            }
            assert(is_preset_upsert(
                storage.issued()[o + 1 + k],
                opt_view(existing),
                project_id@,
                presets@[k as int].name@,
                presets@[k as int].description@,
                presets@[k as int].terminal_kind@,
                presets@[k as int].working_directory@,
                presets@[k as int].command@,
            ));
        }
        k = k + 1;
    }
    Ok(settings)
}

pub fn list_command_presets(storage: &mut Storage, project_id: &str) -> (r: CoreResult<
    Vec<CommandPreset>,
>)
    ensures
        read_from(*old(storage), *final(storage)),
        r is Ok ==> asked_with(final(storage).queried().last(), PRESETS_QUERY@, seq![project_id@]),
        r matches Ok(v) ==> all_decode_preset(last_rows(final(storage).queried()), v@),
        r matches Ok(v) ==> forall|i: int| 0 <= i < v@.len() - 1 ==> #[trigger] presets_ordered_at(v@, i),
        r matches Ok(v) ==> forall|j: int| 0 <= j < v@.len() ==> (#[trigger] v@[j]).project_id@ == project_id@,
        !is_valid_id(project_id.spec_bytes()) ==> (r matches Err(e) && e.code@ == "INVALID_REQUEST"@),
        r is Ok ==> is_valid_id(project_id.spec_bytes()),
        r matches Err(e) ==> is_workbench_error(e),
{
    validate_id(project_id)?;
    storage.project(project_id)?;
    let rows = storage.query_by_id(PRESETS_QUERY, project_id, 9)?;
    let ghost q = storage.queried();
    let mut out: Vec<CommandPreset> = Vec::new();
    let mut k: usize = 0;
    while k < rows.len()
        invariant
            read_from(*old(storage), *storage),
            storage.queried() == q,
            forall|i: int| 0 <= i < k - 1 ==> #[trigger] presets_ordered_at(out@, i),
            k <= rows@.len(),
            is_valid_id(project_id.spec_bytes()),
            forall|i: int| 0 <= i < rows@.len() ==> #[trigger] rows@[i]@.len() == 9,
            out@.len() == k,
            forall|j: int| 0 <= j < k ==> preset_row(#[trigger] rows@[j]@),
            forall|j: int| 0 <= j < k ==> decodes_preset(rows@[j]@, #[trigger] out@[j]),
            forall|j: int| 0 <= j < k ==> (#[trigger] out@[j]).project_id@ == project_id@,
        decreases rows@.len() - k,
    {
        let item = decode_preset(&rows[k])?;
        check_answer(str_eq(item.project_id.as_str(), project_id))?;
        if k > 0 {
            check_answer(preset_before(&out[k - 1], &item))?;
        }
        let ghost before = out@;
        out.push(item);
        proof {
            assert forall|i: int| 0 <= i < k implies #[trigger] presets_ordered_at(out@, i) by {
                assert(out@[i] == before[i]);
                if i < k - 1 {
                    assert(presets_ordered_at(before, i));
                    assert(out@[i + 1] == before[i + 1]);
                } else {
                    assert(out@[i + 1] == item);
                }
            }
        }
        k = k + 1;
    }
    proof {
        assert forall|i: int| 0 <= i < out@.len() implies preset_row(last_rows(storage.queried())[i])
            && decodes_preset(last_rows(storage.queried())[i], #[trigger] out@[i]) by {
            assert(last_rows(storage.queried())[i] == rows@[i]@);
        }
    }
    Ok(out)
}

fn command_preset(storage: &mut Storage, preset_id: &str) -> (r: CoreResult<CommandPreset>)
    ensures
        read_from(*old(storage), *final(storage)),
        r matches Ok(p) ==> p.preset_id@ == preset_id@,
        r matches Ok(p) ==> exists|row: Seq<Cell>| preset_row(row) && #[trigger] decodes_preset(row, p),
        r matches Err(e) ==> is_workbench_error(e),
{
    let rows = storage.query_by_id(PRESET_QUERY, preset_id, 9)?;
    if rows.len() == 0 {
        return Err(CoreError::new("NOT_FOUND", "command preset was not found"));
    }
    let preset = decode_preset(&rows[0])?;
    check_answer(str_eq(preset.preset_id.as_str(), preset_id))?;
    Ok(preset)
}

/// Saves a command preset after checking it; a new preset gets a fresh
/// identifier.
pub fn save_command_preset(
    storage: &mut Storage,
    preset_id: Option<&str>,
    project_id: &str,
    name: &str,
    description: &str,
    terminal_kind: &str,
    working_directory: &str,
    command: &str,
) -> (r: CoreResult<CommandPreset>)
    ensures
        final(storage).spec_layout() == old(storage).spec_layout(),
        final(storage).issued() == old(storage).issued() || (final(storage).issued() == old(
            storage,
        ).issued().push(final(storage).issued().last()) && is_preset_upsert(
            final(storage).issued().last(),
            opt_str_view(preset_id),
            project_id@,
            name@,
            description@,
            terminal_kind@,
            working_directory@,
            command@,
        )),
        !is_valid_id(project_id.spec_bytes()) ==> (r matches Err(e) && e.code@ == "INVALID_REQUEST"@
            && final(storage).issued() == old(storage).issued()),
        r is Ok ==> is_valid_id(project_id.spec_bytes()) && is_acceptable_text(name@, 120, false)
            && is_acceptable_text(description@, 500, true) && is_terminal_kind(terminal_kind@)
            && is_project_relative(working_directory@) && is_acceptable_text(command@, 8192, false)
            && final(storage).issued().len() == old(storage).issued().len() + 1,
        reads_grown(old(storage).queried(), final(storage).queried()),
        r matches Err(e) ==> is_workbench_error(e),
{
    validate_id(project_id)?;
    storage.project(project_id)?;
    validate_text(name, MAX_NAME, false, "command preset name")?;
    validate_text(description, MAX_DESCRIPTION, true, "command preset description")?;
    validate_terminal_kind(terminal_kind)?;
    validate_relative_path(working_directory)?;
    validate_text(command, MAX_COMMAND, false, "command preset")?;
    let preset_id = match preset_id {
        Some(value) => {
            validate_id(value)?;
            value.to_string()
        },
        None => fresh_id("preset"),
    };
    let timestamp = now();
    let params = [
        text_param(preset_id.as_str()),
        text_param(project_id),
        text_param(trim_str(name)),
        text_param(trim_str(description)),
        text_param(terminal_kind),
        text_param(working_directory),
        text_param(command),
        SqlParam::Integer(timestamp),
        SqlParam::Integer(timestamp),
    ];
    storage.execute(PRESET_UPSERT, &params)?;
    command_preset(storage, preset_id.as_str())
}

pub fn delete_command_preset(storage: &mut Storage, preset_id: &str) -> (r: CoreResult<()>)
    ensures
        final(storage).spec_layout() == old(storage).spec_layout(),
        !is_valid_id(preset_id.spec_bytes()) ==> (r matches Err(e) && e.code@ == "INVALID_REQUEST"@
            && final(storage).issued() == old(storage).issued()),
        final(storage).issued() == old(storage).issued() || (final(storage).issued() == old(
            storage,
        ).issued().push(final(storage).issued().last()) && is_delete_by(
            final(storage).issued().last(),
            PRESET_DELETE@,
            preset_id@,
        )),
        r is Ok ==> final(storage).issued().len() == old(storage).issued().len() + 1,
        r is Ok <==> final(storage).changes().len() == old(storage).changes().len() + 1
            && final(storage).changes().last() == 1,
        final(storage).changes() == old(storage).changes() || final(storage).changes() == old(
            storage,
        ).changes().push(final(storage).changes().last()),
        r matches Err(e) ==> is_workbench_error(e),
{
    validate_id(preset_id)?;
    let params = [text_param(preset_id)];
    let changed = storage.execute(PRESET_DELETE, &params)?;
    check_deleted_one(changed, "command preset was not found")
}

/// Records submitted input, refusing input that resembles a credential.
pub fn append_history(
    storage: &mut Storage,
    project_id: &str,
    terminal_id: Option<&str>,
    thread_id: Option<&str>,
    kind: &str,
    input_text: &str,
) -> (r: CoreResult<InputHistory>)
    ensures
        r matches Ok(h) ==> h.project_id@ == project_id@ && h.kind@ == kind@ && h.input_text@
            == input_text@ && is_history_kind(kind@) && !is_sensitive(input_text@)
            && is_acceptable_text(input_text@, 16384, false),
        !is_valid_id(project_id.spec_bytes()) ==> (r matches Err(e) && e.code@ == "INVALID_REQUEST"@),
        is_valid_id(project_id.spec_bytes()) && terminal_id is None && (thread_id matches Some(t)
            ==> is_valid_id(t.spec_bytes())) && is_history_kind(kind@) && is_acceptable_text(
            input_text@,
            16384,
            false,
        ) && is_sensitive(input_text@) ==> (r matches Err(e) && (e.code@
            == "SENSITIVE_CONTENT_REJECTED"@ || crate::storage::storage_or(e, "NOT_FOUND"@))),
        is_sensitive(input_text@) ==> (r matches Err(e) && (e.code@ == "SENSITIVE_CONTENT_REJECTED"@
            || crate::storage::storage_or(e, "NOT_FOUND"@) || e.code@ == "INVALID_REQUEST"@)),
        r matches Err(e) ==> is_workbench_error(e),
        final(storage).spec_layout() == old(storage).spec_layout(),
        final(storage).issued() == old(storage).issued() || final(storage).issued() == old(
            storage,
        ).issued().push(final(storage).issued().last()),
        r matches Err(e) && !is_storage_failure(e) ==> final(storage).issued() == old(
            storage,
        ).issued(),
        r matches Ok(h) ==> final(storage).issued() == old(storage).issued().push(
            final(storage).issued().last(),
        ) && is_history_insert(final(storage).issued().last(), h) && is_fresh_id(
            "history"@,
            h.history_id@,
        ) && opt_view(h.terminal_id) == opt_str_view(terminal_id) && opt_view(h.thread_id)
            == opt_str_view(thread_id),
{
    validate_id(project_id)?;
    storage.project(project_id)?;
    match terminal_id {
        Some(value) => {
            validate_id(value)?;
            let terminal = storage.terminal(value)?;
            if !str_eq(terminal.project_id.as_str(), project_id) {
                return Err(
                    CoreError::new("INVALID_REQUEST", "Terminal does not belong to Project"),
                );
            }
        },
        None => {},
    }
    match thread_id {
        Some(value) => {
            validate_id(value)?;
        },
        None => {},
    }
    if !(str_eq(kind, "shell") || str_eq(kind, "prompt")) {
        return Err(CoreError::new("INVALID_REQUEST", "history kind is invalid"));
    }
    validate_text(input_text, MAX_HISTORY, false, "history input")?;
    if looks_sensitive(input_text) {
        return Err(
            CoreError::new(
                "SENSITIVE_CONTENT_REJECTED",
                "input resembles a credential and was not recorded",
            ),
        );
    }
    let entry = InputHistory {
        history_id: fresh_id("history"),
        project_id: String::from_str(project_id),
        terminal_id: match terminal_id {
            Some(v) => Some(String::from_str(v)),
            None => None,
        },
        thread_id: match thread_id {
            Some(v) => Some(String::from_str(v)),
            None => None,
        },
        kind: String::from_str(kind),
        input_text: String::from_str(input_text),
        created_at: now(),
    };
    let params = [
        text_param(entry.history_id.as_str()),
        text_param(entry.project_id.as_str()),
        opt_text_param(terminal_id),
        opt_text_param(thread_id),
        text_param(entry.kind.as_str()),
        text_param(entry.input_text.as_str()),
        SqlParam::Integer(entry.created_at),
    ];
    storage.execute(HISTORY_INSERT, &params)?;
    Ok(entry)
}

/// The newest matching history entries of a project.
pub fn search_history(
    storage: &mut Storage,
    project_id: &str,
    terminal_id: Option<&str>,
    thread_id: Option<&str>,
    kind: Option<&str>,
    query: &str,
    limit: u16,
) -> (r: CoreResult<Vec<InputHistory>>)
    ensures
        read_from(*old(storage), *final(storage)),
        r is Ok ==> is_history_search(final(storage).queried().last(), project_id@, opt_str_view(terminal_id), opt_str_view(thread_id), opt_str_view(kind), query@, limit),
        r matches Ok(v) ==> all_decode_history(last_rows(final(storage).queried()), v@),
        r matches Ok(v) ==> forall|i: int| 0 <= i < v@.len() - 1 ==> #[trigger] history_ordered_at(v@, i),
        r matches Ok(v) ==> v@.len() <= history_limit_of(limit) && forall|j: int|
            0 <= j < v@.len() ==> is_history_match(
                #[trigger] v@[j],
                project_id@,
                opt_str_view(terminal_id),
                opt_str_view(thread_id),
                opt_str_view(kind),
            ),
        !is_valid_id(project_id.spec_bytes()) ==> (r matches Err(e) && e.code@ == "INVALID_REQUEST"@),
        r is Ok ==> is_valid_id(project_id.spec_bytes()),
        r matches Err(e) ==> is_workbench_error(e),
{
    validate_id(project_id)?;
    let limit = history_limit(limit);
    let pattern = like_pattern(query);
    let params = [
        text_param(project_id),
        opt_text_param(terminal_id),
        opt_text_param(thread_id),
        opt_text_param(kind),
        text_param(pattern.as_str()),
        SqlParam::Integer(limit as i64),
    ];
    let rows = storage.query(HISTORY_SEARCH_QUERY, &params, 7)?;
    check_answer(rows.len() <= limit as usize)?;
    let ghost q = storage.queried();
    let mut out: Vec<InputHistory> = Vec::new();
    let mut k: usize = 0;
    while k < rows.len()
        invariant
            read_from(*old(storage), *storage),
            storage.queried() == q,
            forall|i: int| 0 <= i < k - 1 ==> #[trigger] history_ordered_at(out@, i),
            k <= rows@.len(),
            is_valid_id(project_id.spec_bytes()),
            forall|i: int| 0 <= i < rows@.len() ==> #[trigger] rows@[i]@.len() == 7,
            out@.len() == k,
            forall|j: int| 0 <= j < k ==> history_row(#[trigger] rows@[j]@),
            forall|j: int| 0 <= j < k ==> decodes_history(rows@[j]@, #[trigger] out@[j]),
            forall|j: int|
                0 <= j < k ==> is_history_match(
                    #[trigger] out@[j],
                    project_id@,
                    opt_str_view(terminal_id),
                    opt_str_view(thread_id),
                    opt_str_view(kind),
                ),
        decreases rows@.len() - k,
    {
        let item = decode_history(&rows[k])?;
        let kind_matches = match kind {
            Some(wanted) => str_eq(item.kind.as_str(), wanted),
            None => true,
        };
        check_answer(
            str_eq(item.project_id.as_str(), project_id) && filter_matches(&item.terminal_id, terminal_id)
                && filter_matches(&item.thread_id, thread_id) && kind_matches,
        )?;
        if k > 0 {
            check_answer(history_before(&out[k - 1], &item))?;
        }
        let ghost before = out@;
        out.push(item);
        proof {
            assert forall|i: int| 0 <= i < k implies #[trigger] history_ordered_at(out@, i) by {
                assert(out@[i] == before[i]);
                if i < k - 1 {
                    assert(history_ordered_at(before, i));
                    assert(out@[i + 1] == before[i + 1]);
                } else {
                    assert(out@[i + 1] == item);
                }
            }
        }
        k = k + 1;
    }
    proof {
        assert forall|i: int| 0 <= i < out@.len() implies history_row(last_rows(storage.queried())[i])
            && decodes_history(last_rows(storage.queried())[i], #[trigger] out@[i]) by {
            assert(last_rows(storage.queried())[i] == rows@[i]@);
        }
    }
    Ok(out)
}

pub fn delete_history(storage: &mut Storage, history_id: &str) -> (r: CoreResult<()>)
    ensures
        final(storage).spec_layout() == old(storage).spec_layout(),
        !is_valid_id(history_id.spec_bytes()) ==> (r matches Err(e) && e.code@ == "INVALID_REQUEST"@
            && final(storage).issued() == old(storage).issued()),
        final(storage).issued() == old(storage).issued() || (final(storage).issued() == old(
            storage,
        ).issued().push(final(storage).issued().last()) && is_delete_by(
            final(storage).issued().last(),
            HISTORY_DELETE@,
            history_id@,
        )),
        r is Ok ==> final(storage).issued().len() == old(storage).issued().len() + 1,
        r is Ok <==> final(storage).changes().len() == old(storage).changes().len() + 1
            && final(storage).changes().last() == 1,
        final(storage).changes() == old(storage).changes() || final(storage).changes() == old(
            storage,
        ).changes().push(final(storage).changes().last()),
        r matches Err(e) ==> is_workbench_error(e),
{
    validate_id(history_id)?;
    let params = [text_param(history_id)];
    let changed = storage.execute(HISTORY_DELETE, &params)?;
    check_deleted_one(changed, "history entry was not found")
}

/// Removes a project's whole history and reports how many entries went.
pub fn clear_project_history(storage: &mut Storage, project_id: &str) -> (r: CoreResult<u64>)
    ensures
        final(storage).spec_layout() == old(storage).spec_layout(),
        !is_valid_id(project_id.spec_bytes()) ==> (r matches Err(e) && e.code@ == "INVALID_REQUEST"@
            && final(storage).issued() == old(storage).issued()),
        final(storage).issued() == old(storage).issued() || (final(storage).issued() == old(
            storage,
        ).issued().push(final(storage).issued().last()) && is_delete_by(
            final(storage).issued().last(),
            HISTORY_CLEAR@,
            project_id@,
        )),
        r is Ok ==> final(storage).issued().len() == old(storage).issued().len() + 1
            && is_delete_by(final(storage).issued().last(), HISTORY_CLEAR@, project_id@),
        r matches Ok(n) ==> final(storage).changes() == old(storage).changes().push(
            final(storage).changes().last(),
        ) && n == final(storage).changes().last(),
        r is Err ==> final(storage).changes() == old(storage).changes(),
        r matches Err(e) ==> is_workbench_error(e),
{
    validate_id(project_id)?;
    storage.project(project_id)?;
    let params = [text_param(project_id)];
    let changed = storage.execute(HISTORY_CLEAR, &params)?;
    Ok(changed as u64)
}

} // verus!
