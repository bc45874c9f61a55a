//! Stored rows as plain values, and their decoding into domain records.
//!
//! A row is read as one `Cell` per selected column; each record is decoded
//! column by column, and a column of the wrong storage class makes the row
//! unreadable, as a typed column read does.

use vstd::prelude::*;
use vstd::string::*;

use crate::error::{CoreError, CoreResult};
use crate::model::{
    Account, LaunchTransaction, LaunchView, Project, RecoveryAttempt, RecoveryIncident, Terminal,
    ThreadIndex, TransactionState,
};

verus! {

/// One stored value, by storage class. Floating-point and blob values are
/// never read by the runtime, so their contents are not carried.
#[derive(Debug, Clone, PartialEq, Eq)]
pub enum Cell {
    Null,
    Integer(i64),
    Text(String),
    Real,
    Blob,
}

/// A value bound to a statement parameter.
#[derive(Debug, Clone, PartialEq, Eq)]
pub enum SqlParam {
    Null,
    Integer(i64),
    Text(String),
}

/// The text of an optional string.
pub open spec fn opt_view(o: Option<String>) -> Option<Seq<char>> {
    match o {
        Some(s) => Some(s@),
        None => None,
    }
}

pub open spec fn is_text(c: Cell) -> bool {
    c is Text
}

pub open spec fn text_of(c: Cell) -> Seq<char> {
    match c {
        Cell::Text(s) => s@,
        _ => Seq::<char>::empty(),
    }
}

pub open spec fn is_opt_text(c: Cell) -> bool {
    c is Null || c is Text
}

pub open spec fn opt_text_of(c: Cell) -> Option<Seq<char>> {
    match c {
        Cell::Text(s) => Some(s@),
        _ => None,
    }
}

pub open spec fn is_int(c: Cell) -> bool {
    c is Integer
}

pub open spec fn int_of(c: Cell) -> i64 {
    match c {
        Cell::Integer(v) => v,
        _ => 0,
    }
}

pub open spec fn is_opt_int(c: Cell) -> bool {
    c is Null || c is Integer
}

pub open spec fn opt_int_of(c: Cell) -> Option<i64> {
    match c {
        Cell::Integer(v) => Some(v),
        _ => None,
    }
}

/// An integer that fits a `u32`.
pub open spec fn is_u32(c: Cell) -> bool {
    c is Integer && 0 <= int_of(c) <= u32::MAX
}

pub open spec fn is_opt_u32(c: Cell) -> bool {
    c is Null || is_u32(c)
}

pub open spec fn opt_u32_of(c: Cell) -> Option<u32> {
    match c {
        Cell::Integer(v) => Some(v as u32),
        _ => None,
    }
}

/// A stored tick count: absent, or negative and so unusable, reads as `None`.
pub open spec fn ticks_of(c: Cell) -> Option<u64> {
    match c {
        Cell::Integer(v) => if v >= 0 {
            Some(v as u64)
        } else {
            None
        },
        _ => None,
    }
}

/// A stored state name; a name no state has reads as `failed`.
pub open spec fn state_of(c: Cell) -> TransactionState {
    match TransactionState::from_name(text_of(c)) {
        Some(s) => s,
        None => TransactionState::Failed,
    }
}

/// The error of a row that cannot be read.
pub open spec fn is_storage_failure(e: CoreError) -> bool {
    e.code@ == "STORAGE_FAILURE"@
}

fn unreadable() -> (e: CoreError)
    ensures
        is_storage_failure(e),
{
    CoreError::new("STORAGE_FAILURE", "a durable storage operation failed")
}

pub fn text_cell(row: &Vec<Cell>, i: usize) -> (r: CoreResult<String>)
    requires
        i < row@.len(),
    ensures
        r is Ok <==> is_text(row@[i as int]),
        r matches Ok(s) ==> s@ == text_of(row@[i as int]),
        r matches Err(e) ==> is_storage_failure(e),
{
    match &row[i] {
        Cell::Text(s) => Ok(s.clone()),
        _ => Err(unreadable()),
    }
}

pub fn opt_text_cell(row: &Vec<Cell>, i: usize) -> (r: CoreResult<Option<String>>)
    requires
        i < row@.len(),
    ensures
        r is Ok <==> is_opt_text(row@[i as int]),
        r matches Ok(s) ==> opt_view(s) == opt_text_of(row@[i as int]),
        r matches Err(e) ==> is_storage_failure(e),
{
    match &row[i] {
        Cell::Text(s) => Ok(Some(s.clone())),
        Cell::Null => Ok(None),
        _ => Err(unreadable()),
    }
}

pub fn int_cell(row: &Vec<Cell>, i: usize) -> (r: CoreResult<i64>)
    requires
        i < row@.len(),
    ensures
        r is Ok <==> is_int(row@[i as int]),
        r matches Ok(v) ==> v == int_of(row@[i as int]),
        r matches Err(e) ==> is_storage_failure(e),
{
    match &row[i] {
        Cell::Integer(v) => Ok(*v),
        _ => Err(unreadable()),
    }
}

pub fn opt_int_cell(row: &Vec<Cell>, i: usize) -> (r: CoreResult<Option<i64>>)
    requires
        i < row@.len(),
    ensures
        r is Ok <==> is_opt_int(row@[i as int]),
        r matches Ok(v) ==> v == opt_int_of(row@[i as int]),
        r matches Err(e) ==> is_storage_failure(e),
{
    match &row[i] {
        Cell::Integer(v) => Ok(Some(*v)),
        Cell::Null => Ok(None),
        _ => Err(unreadable()),
    }
}

pub fn u32_cell(row: &Vec<Cell>, i: usize) -> (r: CoreResult<u32>)
    requires
        i < row@.len(),
    ensures
        r is Ok <==> is_u32(row@[i as int]),
        r matches Ok(v) ==> v == int_of(row@[i as int]),
        r matches Err(e) ==> is_storage_failure(e),
{
    match &row[i] {
        Cell::Integer(v) => if 0 <= *v && *v <= 4294967295i64 {
            Ok(*v as u32)
        } else {
            Err(unreadable())
        },
        _ => Err(unreadable()),
    }
}

pub fn opt_u32_cell(row: &Vec<Cell>, i: usize) -> (r: CoreResult<Option<u32>>)
    requires
        i < row@.len(),
    ensures
        r is Ok <==> is_opt_u32(row@[i as int]),
        r matches Ok(v) ==> v == opt_u32_of(row@[i as int]),
        r matches Err(e) ==> is_storage_failure(e),
{
    match &row[i] {
        Cell::Null => Ok(None),
        Cell::Integer(v) => if 0 <= *v && *v <= 4294967295i64 {
            Ok(Some(*v as u32))
        } else {
            Err(unreadable())
        },
        _ => Err(unreadable()),
    }
}

pub fn ticks_cell(row: &Vec<Cell>, i: usize) -> (r: CoreResult<Option<u64>>)
    requires
        i < row@.len(),
    ensures
        r is Ok <==> is_opt_int(row@[i as int]),
        r matches Ok(v) ==> v == ticks_of(row@[i as int]),
        r matches Err(e) ==> is_storage_failure(e),
{
    match &row[i] {
        Cell::Null => Ok(None),
        Cell::Integer(v) => if *v >= 0 {
            Ok(Some(*v as u64))
        } else {
            Ok(None)
        },
        _ => Err(unreadable()),
    }
}

pub fn state_cell(row: &Vec<Cell>, i: usize) -> (r: CoreResult<TransactionState>)
    requires
        i < row@.len(),
    ensures
        r is Ok <==> is_text(row@[i as int]),
        r matches Ok(s) ==> s == state_of(row@[i as int]),
        r matches Err(e) ==> is_storage_failure(e),
{
    match &row[i] {
        Cell::Text(s) => match TransactionState::parse(s.as_str()) {
            Some(state) => Ok(state),
            None => Ok(TransactionState::Failed),
        },
        _ => Err(unreadable()),
    }
}

// ---------------------------------------------------------------------------
// Accounts
pub open spec fn account_row(row: Seq<Cell>) -> bool {
    &&& row.len() == 9
    &&& is_text(row[0]) && is_text(row[1]) && is_opt_text(row[2]) && is_opt_text(row[3])
    &&& is_text(row[4]) && is_text(row[5]) && is_int(row[6]) && is_int(row[7]) && is_int(row[8])
}

pub open spec fn decodes_account(row: Seq<Cell>, a: Account) -> bool {
    &&& a.account_id@ == text_of(row[0])
    &&& a.display_name@ == text_of(row[1])
    &&& opt_view(a.masked_email) == opt_text_of(row[2])
    &&& opt_view(a.plan_type) == opt_text_of(row[3])
    &&& a.login_status@ == text_of(row[4])
    &&& a.credential_hash@ == text_of(row[5])
    &&& a.created_at == int_of(row[6])
    &&& a.updated_at == int_of(row[7])
    &&& a.occupied == (int_of(row[8]) != 0)
}

/// An account from `account_id, display_name, masked_email, plan_type,
/// login_status, credential_hash, created_at, updated_at, occupied`.
pub fn decode_account(row: &Vec<Cell>) -> (r: CoreResult<Account>)
    ensures
        r is Ok <==> account_row(row@),
        r matches Ok(a) ==> decodes_account(row@, a),
        r matches Err(e) ==> is_storage_failure(e),
{
    if row.len() != 9 {
        return Err(unreadable());
    }
    Ok(
        Account {
            account_id: text_cell(row, 0)?,
            display_name: text_cell(row, 1)?,
            masked_email: opt_text_cell(row, 2)?,
            plan_type: opt_text_cell(row, 3)?,
            login_status: text_cell(row, 4)?,
            credential_hash: text_cell(row, 5)?,
            created_at: int_cell(row, 6)?,
            updated_at: int_cell(row, 7)?,
            occupied: int_cell(row, 8)? != 0,
        },
    )
}

// ---------------------------------------------------------------------------
// Projects
pub open spec fn project_row(row: Seq<Cell>) -> bool {
    &&& row.len() == 10
    &&& is_text(row[0]) && is_text(row[1]) && is_opt_text(row[2]) && is_text(row[3])
    &&& is_text(row[4]) && is_text(row[5]) && is_int(row[6]) && is_int(row[7]) && is_int(row[8])
    &&& is_opt_int(row[9])
}

pub open spec fn decodes_project(row: Seq<Cell>, p: Project) -> bool {
    &&& p.project_id@ == text_of(row[0])
    &&& p.name@ == text_of(row[1])
    &&& opt_view(p.canonical_windows_path) == opt_text_of(row[2])
    &&& p.canonical_wsl_path@ == text_of(row[3])
    &&& p.runtime_relative_path@ == text_of(row[4])
    &&& p.tmux_session_name@ == text_of(row[5])
    &&& p.created_at == int_of(row[6])
    &&& p.updated_at == int_of(row[7])
    &&& p.active == (int_of(row[8]) != 0)
    &&& p.archived_at == opt_int_of(row[9])
}

/// A project from `project_id, name, canonical_windows_path,
/// canonical_wsl_path, runtime_relative_path, tmux_session_name, created_at,
/// updated_at, active, archived_at`.
pub fn decode_project(row: &Vec<Cell>) -> (r: CoreResult<Project>)
    ensures
        r is Ok <==> project_row(row@),
        r matches Ok(p) ==> decodes_project(row@, p),
        r matches Err(e) ==> is_storage_failure(e),
{
    if row.len() != 10 {
        return Err(unreadable());
    }
    Ok(
        Project {
            project_id: text_cell(row, 0)?,
            name: text_cell(row, 1)?,
            canonical_windows_path: opt_text_cell(row, 2)?,
            canonical_wsl_path: text_cell(row, 3)?,
            runtime_relative_path: text_cell(row, 4)?,
            tmux_session_name: text_cell(row, 5)?,
            created_at: int_cell(row, 6)?,
            updated_at: int_cell(row, 7)?,
            active: int_cell(row, 8)? != 0,
            archived_at: opt_int_cell(row, 9)?,
        },
    )
}

// ---------------------------------------------------------------------------
// Launch transactions
pub open spec fn transaction_row(row: Seq<Cell>) -> bool {
    &&& row.len() == 22
    &&& is_text(row[0]) && is_text(row[1]) && is_text(row[2]) && is_text(row[3])
    &&& is_text(row[4]) && is_opt_u32(row[5]) && is_opt_u32(row[6]) && is_opt_text(row[7])
    &&& is_opt_int(row[8]) && is_opt_int(row[9]) && is_opt_text(row[10]) && is_opt_text(row[11])
    &&& is_opt_text(row[12]) && is_opt_text(row[13]) && is_opt_text(row[14])
    &&& is_opt_text(row[15]) && is_opt_text(row[16]) && is_opt_text(row[17])
    &&& is_opt_text(row[18]) && is_u32(row[19]) && is_int(row[20]) && is_int(row[21])
}

pub open spec fn decodes_transaction(row: Seq<Cell>, t: LaunchTransaction) -> bool {
    &&& t.transaction_id@ == text_of(row[0])
    &&& t.launch_id@ == text_of(row[1])
    &&& t.project_id@ == text_of(row[2])
    &&& t.account_id@ == text_of(row[3])
    &&& t.state == state_of(row[4])
    &&& t.runner_pid == opt_u32_of(row[5])
    &&& t.codex_pid == opt_u32_of(row[6])
    &&& opt_view(t.boot_id) == opt_text_of(row[7])
    &&& t.runner_start_ticks == ticks_of(row[8])
    &&& t.codex_start_ticks == ticks_of(row[9])
    &&& opt_view(t.runner_identity) == opt_text_of(row[10])
    &&& opt_view(t.codex_identity) == opt_text_of(row[11])
    &&& opt_view(t.vault_hash_before_checkout) == opt_text_of(row[12])
    &&& opt_view(t.runtime_hash_at_checkout) == opt_text_of(row[13])
    &&& opt_view(t.runtime_hash_at_recovery) == opt_text_of(row[14])
    &&& opt_view(t.vault_hash_at_recovery) == opt_text_of(row[15])
    &&& opt_view(t.credential_backup_reference) == opt_text_of(row[16])
    &&& opt_view(t.last_error_code) == opt_text_of(row[17])
    &&& opt_view(t.last_error_message_redacted) == opt_text_of(row[18])
    &&& t.recovery_attempts == int_of(row[19])
    &&& t.created_at == int_of(row[20])
    &&& t.updated_at == int_of(row[21])
}

/// A launch transaction from its 22 stored columns, in declaration order.
pub fn decode_transaction(row: &Vec<Cell>) -> (r: CoreResult<LaunchTransaction>)
    ensures
        r is Ok <==> transaction_row(row@),
        r matches Ok(t) ==> decodes_transaction(row@, t),
        r matches Err(e) ==> is_storage_failure(e),
{
    if row.len() != 22 {
        return Err(unreadable());
    }
    Ok(
        LaunchTransaction {
            transaction_id: text_cell(row, 0)?,
            launch_id: text_cell(row, 1)?,
            project_id: text_cell(row, 2)?,
            account_id: text_cell(row, 3)?,
            state: state_cell(row, 4)?,
            runner_pid: opt_u32_cell(row, 5)?,
            codex_pid: opt_u32_cell(row, 6)?,
            boot_id: opt_text_cell(row, 7)?,
            runner_start_ticks: ticks_cell(row, 8)?,
            codex_start_ticks: ticks_cell(row, 9)?,
            runner_identity: opt_text_cell(row, 10)?,
            codex_identity: opt_text_cell(row, 11)?,
            vault_hash_before_checkout: opt_text_cell(row, 12)?,
            runtime_hash_at_checkout: opt_text_cell(row, 13)?,
            runtime_hash_at_recovery: opt_text_cell(row, 14)?,
            vault_hash_at_recovery: opt_text_cell(row, 15)?,
            credential_backup_reference: opt_text_cell(row, 16)?,
            last_error_code: opt_text_cell(row, 17)?,
            last_error_message_redacted: opt_text_cell(row, 18)?,
            recovery_attempts: u32_cell(row, 19)?,
            created_at: int_cell(row, 20)?,
            updated_at: int_cell(row, 21)?,
        },
    )
}

// ---------------------------------------------------------------------------
// Launch views
pub open spec fn launch_row(row: Seq<Cell>) -> bool {
    &&& row.len() == 8
    &&& is_text(row[0]) && is_text(row[1]) && is_text(row[2]) && is_text(row[3])
    &&& is_text(row[4]) && is_opt_text(row[5]) && is_int(row[6]) && is_opt_int(row[7])
}

pub open spec fn decodes_launch(row: Seq<Cell>, l: LaunchView) -> bool {
    &&& l.launch_id@ == text_of(row[0])
    &&& l.transaction_id@ == text_of(row[1])
    &&& l.project_id@ == text_of(row[2])
    &&& l.account_id@ == text_of(row[3])
    &&& l.state == state_of(row[4])
    &&& opt_view(l.outcome) == opt_text_of(row[5])
    &&& l.started_at == int_of(row[6])
    &&& l.exited_at == opt_int_of(row[7])
}

/// A launch from `launch_id, transaction_id, project_id, account_id, state,
/// outcome, started_at, exited_at`.
pub fn decode_launch(row: &Vec<Cell>) -> (r: CoreResult<LaunchView>)
    ensures
        r is Ok <==> launch_row(row@),
        r matches Ok(l) ==> decodes_launch(row@, l),
        r matches Err(e) ==> is_storage_failure(e),
{
    if row.len() != 8 {
        return Err(unreadable());
    }
    Ok(
        LaunchView {
            launch_id: text_cell(row, 0)?,
            transaction_id: text_cell(row, 1)?,
            project_id: text_cell(row, 2)?,
            account_id: text_cell(row, 3)?,
            state: state_cell(row, 4)?,
            outcome: opt_text_cell(row, 5)?,
            started_at: int_cell(row, 6)?,
            exited_at: opt_int_cell(row, 7)?,
        },
    )
}

// ---------------------------------------------------------------------------
// Recovery incidents
pub open spec fn incident_row(row: Seq<Cell>) -> bool {
    &&& row.len() == 12
    &&& is_text(row[0]) && is_text(row[1]) && is_text(row[2]) && is_text(row[3])
    &&& is_text(row[4]) && is_text(row[5]) && is_opt_text(row[6]) && is_opt_text(row[7])
    &&& is_opt_text(row[8]) && is_int(row[9]) && is_int(row[10]) && is_opt_int(row[11])
}

pub open spec fn decodes_incident(row: Seq<Cell>, i: RecoveryIncident) -> bool {
    &&& i.incident_id@ == text_of(row[0])
    &&& i.transaction_id@ == text_of(row[1])
    &&& i.project_id@ == text_of(row[2])
    &&& i.account_id@ == text_of(row[3])
    &&& i.kind@ == text_of(row[4])
    &&& i.status@ == text_of(row[5])
    &&& opt_view(i.evidence_relative_path) == opt_text_of(row[6])
    &&& opt_view(i.resolution_action) == opt_text_of(row[7])
    &&& opt_view(i.resolution_summary) == opt_text_of(row[8])
    &&& i.created_at == int_of(row[9])
    &&& i.updated_at == int_of(row[10])
    &&& i.resolved_at == opt_int_of(row[11])
}

/// An incident from `incident_id, transaction_id, project_id, account_id,
/// kind, status, evidence_relative_path, resolution_action,
/// resolution_summary, created_at, updated_at, resolved_at`.
pub fn decode_incident(row: &Vec<Cell>) -> (r: CoreResult<RecoveryIncident>)
    ensures
        r is Ok <==> incident_row(row@),
        r matches Ok(i) ==> decodes_incident(row@, i),
        r matches Err(e) ==> is_storage_failure(e),
{
    if row.len() != 12 {
        return Err(unreadable());
    }
    Ok(
        RecoveryIncident {
            incident_id: text_cell(row, 0)?,
            transaction_id: text_cell(row, 1)?,
            project_id: text_cell(row, 2)?,
            account_id: text_cell(row, 3)?,
            kind: text_cell(row, 4)?,
            status: text_cell(row, 5)?,
            evidence_relative_path: opt_text_cell(row, 6)?,
            resolution_action: opt_text_cell(row, 7)?,
            resolution_summary: opt_text_cell(row, 8)?,
            created_at: int_cell(row, 9)?,
            updated_at: int_cell(row, 10)?,
            resolved_at: opt_int_cell(row, 11)?,
        },
    )
}

// ---------------------------------------------------------------------------
// Recovery attempts
pub open spec fn attempt_row(row: Seq<Cell>) -> bool {
    &&& row.len() == 9
    &&& is_text(row[0]) && is_text(row[1]) && is_text(row[2]) && is_text(row[3])
    &&& is_text(row[4]) && is_text(row[5]) && is_opt_text(row[6]) && is_int(row[7])
    &&& is_opt_int(row[8])
}

pub open spec fn decodes_attempt(row: Seq<Cell>, a: RecoveryAttempt) -> bool {
    &&& a.attempt_id@ == text_of(row[0])
    &&& a.incident_id@ == text_of(row[1])
    &&& a.transaction_id@ == text_of(row[2])
    &&& a.action@ == text_of(row[3])
    &&& a.classification@ == text_of(row[4])
    &&& a.result_state@ == text_of(row[5])
    &&& opt_view(a.error_code) == opt_text_of(row[6])
    &&& a.created_at == int_of(row[7])
    &&& a.completed_at == opt_int_of(row[8])
}

/// An attempt from `attempt_id, incident_id, transaction_id, action,
/// classification, result_state, error_code, created_at, completed_at`.
pub fn decode_attempt(row: &Vec<Cell>) -> (r: CoreResult<RecoveryAttempt>)
    ensures
        r is Ok <==> attempt_row(row@),
        r matches Ok(a) ==> decodes_attempt(row@, a),
        r matches Err(e) ==> is_storage_failure(e),
{
    if row.len() != 9 {
        return Err(unreadable());
    }
    Ok(
        RecoveryAttempt {
            attempt_id: text_cell(row, 0)?,
            incident_id: text_cell(row, 1)?,
            transaction_id: text_cell(row, 2)?,
            action: text_cell(row, 3)?,
            classification: text_cell(row, 4)?,
            result_state: text_cell(row, 5)?,
            error_code: opt_text_cell(row, 6)?,
            created_at: int_cell(row, 7)?,
            completed_at: opt_int_cell(row, 8)?,
        },
    )
}

// ---------------------------------------------------------------------------
// Terminals
pub open spec fn terminal_row(row: Seq<Cell>) -> bool {
    &&& row.len() == 8 || (row.len() == 9 && is_int(row[8]))
    &&& is_text(row[0]) && is_text(row[1]) && is_text(row[2]) && is_text(row[3])
    &&& is_text(row[4]) && is_text(row[5]) && is_int(row[6]) && is_opt_int(row[7])
}

pub open spec fn decodes_terminal(row: Seq<Cell>, t: Terminal) -> bool {
    &&& t.terminal_id@ == text_of(row[0])
    &&& t.project_id@ == text_of(row[1])
    &&& t.kind@ == text_of(row[2])
    &&& t.display_name@ == text_of(row[3])
    &&& t.tmux_window_identity@ == text_of(row[4])
    &&& t.lifecycle_status@ == text_of(row[5])
    &&& t.created_at == int_of(row[6])
    &&& t.closed_at == opt_int_of(row[7])
}

/// A terminal from `terminal_id, project_id, kind, display_name,
/// tmux_window_identity, lifecycle_status, created_at, closed_at`.
pub fn decode_terminal(row: &Vec<Cell>) -> (r: CoreResult<Terminal>)
    ensures
        r is Ok <==> terminal_row(row@),
        r matches Ok(t) ==> decodes_terminal(row@, t),
        r matches Err(e) ==> is_storage_failure(e),
{
    if row.len() != 8 && row.len() != 9 {
        return Err(unreadable());
    }
    if row.len() == 9 {
        int_cell(row, 8)?;
    }
    Ok(
        Terminal {
            terminal_id: text_cell(row, 0)?,
            project_id: text_cell(row, 1)?,
            kind: text_cell(row, 2)?,
            display_name: text_cell(row, 3)?,
            tmux_window_identity: text_cell(row, 4)?,
            lifecycle_status: text_cell(row, 5)?,
            created_at: int_cell(row, 6)?,
            closed_at: opt_int_cell(row, 7)?,
        },
    )
}

// ---------------------------------------------------------------------------
// Thread indexes
pub open spec fn thread_row(row: Seq<Cell>) -> bool {
    &&& row.len() == 7
    &&& is_text(row[0]) && is_text(row[1]) && is_text(row[2]) && is_int(row[3])
    &&& is_opt_text(row[4]) && is_text(row[5]) && is_int(row[6])
}

pub open spec fn decodes_thread(row: Seq<Cell>, t: ThreadIndex) -> bool {
    &&& t.thread_id@ == text_of(row[0])
    &&& t.project_id@ == text_of(row[1])
    &&& t.source_relative_path@ == text_of(row[2])
    &&& t.source_modified_at == int_of(row[3])
    &&& opt_view(t.codex_version) == opt_text_of(row[4])
    &&& t.status@ == text_of(row[5])
    &&& t.indexed_at == int_of(row[6])
}

/// A thread index from `thread_id, project_id, source_relative_path,
/// source_modified_at, codex_version, status, indexed_at`.
pub fn decode_thread(row: &Vec<Cell>) -> (r: CoreResult<ThreadIndex>)
    ensures
        r is Ok <==> thread_row(row@),
        r matches Ok(t) ==> decodes_thread(row@, t),
        r matches Err(e) ==> is_storage_failure(e),
{
    if row.len() != 7 {
        return Err(unreadable());
    }
    Ok(
        ThreadIndex {
            thread_id: text_cell(row, 0)?,
            project_id: text_cell(row, 1)?,
            source_relative_path: text_cell(row, 2)?,
            source_modified_at: int_cell(row, 3)?,
            codex_version: opt_text_cell(row, 4)?,
            status: text_cell(row, 5)?,
            indexed_at: int_cell(row, 6)?,
        },
    )
}

// ---------------------------------------------------------------------------
// Whole result sets: every row decoded, in order, or the first unreadable row
// refuses the set.

/// The cells of each row.
pub open spec fn rows_view(rows: Seq<Vec<Cell>>) -> Seq<Seq<Cell>> {
    rows.map_values(|row: Vec<Cell>| row@)
}

/// Every row read as an account, in order.
pub fn decode_accounts(rows: &Vec<Vec<Cell>>) -> (r: CoreResult<Vec<Account>>)
    ensures
        r is Ok <==> forall|i: int| 0 <= i < rows@.len() ==> account_row(#[trigger] rows@[i]@),
        r matches Ok(v) ==> v@.len() == rows@.len() && forall|i: int|
            0 <= i < rows@.len() ==> decodes_account(rows@[i]@, #[trigger] v@[i]),
        r matches Err(e) ==> is_storage_failure(e),
{
    let mut out: Vec<Account> = Vec::new();
    let mut k: usize = 0;
    while k < rows.len()
        invariant
            k <= rows@.len(),
            out@.len() == k,
            forall|i: int| 0 <= i < k ==> account_row(#[trigger] rows@[i]@),
            forall|i: int| 0 <= i < k ==> decodes_account(rows@[i]@, #[trigger] out@[i]),
        decreases rows@.len() - k,
    {
        let item = decode_account(&rows[k])?;
        out.push(item);
        k = k + 1;
    }
    Ok(out)
}

/// Every row read as a project, in order.
pub fn decode_projects(rows: &Vec<Vec<Cell>>) -> (r: CoreResult<Vec<Project>>)
    ensures
        r is Ok <==> forall|i: int| 0 <= i < rows@.len() ==> project_row(#[trigger] rows@[i]@),
        r matches Ok(v) ==> v@.len() == rows@.len() && forall|i: int|
            0 <= i < rows@.len() ==> decodes_project(rows@[i]@, #[trigger] v@[i]),
        r matches Err(e) ==> is_storage_failure(e),
{
    let mut out: Vec<Project> = Vec::new();
    let mut k: usize = 0;
    while k < rows.len()
        invariant
            k <= rows@.len(),
            out@.len() == k,
            forall|i: int| 0 <= i < k ==> project_row(#[trigger] rows@[i]@),
            forall|i: int| 0 <= i < k ==> decodes_project(rows@[i]@, #[trigger] out@[i]),
        decreases rows@.len() - k,
    {
        let item = decode_project(&rows[k])?;
        out.push(item);
        k = k + 1;
    }
    Ok(out)
}

/// Every row read as a transaction, in order.
pub fn decode_transactions(rows: &Vec<Vec<Cell>>) -> (r: CoreResult<Vec<LaunchTransaction>>)
    ensures
        r is Ok <==> forall|i: int| 0 <= i < rows@.len() ==> transaction_row(#[trigger] rows@[i]@),
        r matches Ok(v) ==> v@.len() == rows@.len() && forall|i: int|
            0 <= i < rows@.len() ==> decodes_transaction(rows@[i]@, #[trigger] v@[i]),
        r matches Err(e) ==> is_storage_failure(e),
{
    let mut out: Vec<LaunchTransaction> = Vec::new();
    let mut k: usize = 0;
    while k < rows.len()
        invariant
            k <= rows@.len(),
            out@.len() == k,
            forall|i: int| 0 <= i < k ==> transaction_row(#[trigger] rows@[i]@),
            forall|i: int| 0 <= i < k ==> decodes_transaction(rows@[i]@, #[trigger] out@[i]),
        decreases rows@.len() - k,
    {
        let item = decode_transaction(&rows[k])?;
        out.push(item);
        k = k + 1;
    }
    Ok(out)
}

/// Every row read as a launch, in order.
pub fn decode_launches(rows: &Vec<Vec<Cell>>) -> (r: CoreResult<Vec<LaunchView>>)
    ensures
        r is Ok <==> forall|i: int| 0 <= i < rows@.len() ==> launch_row(#[trigger] rows@[i]@),
        r matches Ok(v) ==> v@.len() == rows@.len() && forall|i: int|
            0 <= i < rows@.len() ==> decodes_launch(rows@[i]@, #[trigger] v@[i]),
        r matches Err(e) ==> is_storage_failure(e),
{
    let mut out: Vec<LaunchView> = Vec::new();
    let mut k: usize = 0;
    while k < rows.len()
        invariant
            k <= rows@.len(),
            out@.len() == k,
            forall|i: int| 0 <= i < k ==> launch_row(#[trigger] rows@[i]@),
            forall|i: int| 0 <= i < k ==> decodes_launch(rows@[i]@, #[trigger] out@[i]),
        decreases rows@.len() - k,
    {
        let item = decode_launch(&rows[k])?;
        out.push(item);
        k = k + 1;
    }
    Ok(out)
}

/// Every row read as an incident, in order.
pub fn decode_incidents(rows: &Vec<Vec<Cell>>) -> (r: CoreResult<Vec<RecoveryIncident>>)
    ensures
        r is Ok <==> forall|i: int| 0 <= i < rows@.len() ==> incident_row(#[trigger] rows@[i]@),
        r matches Ok(v) ==> v@.len() == rows@.len() && forall|i: int|
            0 <= i < rows@.len() ==> decodes_incident(rows@[i]@, #[trigger] v@[i]),
        r matches Err(e) ==> is_storage_failure(e),
{
    let mut out: Vec<RecoveryIncident> = Vec::new();
    let mut k: usize = 0;
    while k < rows.len()
        invariant
            k <= rows@.len(),
            out@.len() == k,
            forall|i: int| 0 <= i < k ==> incident_row(#[trigger] rows@[i]@),
            forall|i: int| 0 <= i < k ==> decodes_incident(rows@[i]@, #[trigger] out@[i]),
        decreases rows@.len() - k,
    {
        let item = decode_incident(&rows[k])?;
        out.push(item);
        k = k + 1;
    }
    Ok(out)
}

/// Every row read as an attempt, in order.
pub fn decode_attempts(rows: &Vec<Vec<Cell>>) -> (r: CoreResult<Vec<RecoveryAttempt>>)
    ensures
        r is Ok <==> forall|i: int| 0 <= i < rows@.len() ==> attempt_row(#[trigger] rows@[i]@),
        r matches Ok(v) ==> v@.len() == rows@.len() && forall|i: int|
            0 <= i < rows@.len() ==> decodes_attempt(rows@[i]@, #[trigger] v@[i]),
        r matches Err(e) ==> is_storage_failure(e),
{
    let mut out: Vec<RecoveryAttempt> = Vec::new();
    let mut k: usize = 0;
    while k < rows.len()
        invariant
            k <= rows@.len(),
            out@.len() == k,
            forall|i: int| 0 <= i < k ==> attempt_row(#[trigger] rows@[i]@),
            forall|i: int| 0 <= i < k ==> decodes_attempt(rows@[i]@, #[trigger] out@[i]),
        decreases rows@.len() - k,
    {
        let item = decode_attempt(&rows[k])?;
        out.push(item);
        k = k + 1;
    }
    Ok(out)
}

/// Every row read as a terminal, in order.
pub fn decode_terminals(rows: &Vec<Vec<Cell>>) -> (r: CoreResult<Vec<Terminal>>)
    ensures
        r is Ok <==> forall|i: int| 0 <= i < rows@.len() ==> terminal_row(#[trigger] rows@[i]@),
        r matches Ok(v) ==> v@.len() == rows@.len() && forall|i: int|
            0 <= i < rows@.len() ==> decodes_terminal(rows@[i]@, #[trigger] v@[i]),
        r matches Err(e) ==> is_storage_failure(e),
{
    let mut out: Vec<Terminal> = Vec::new();
    let mut k: usize = 0;
    while k < rows.len()
        invariant
            k <= rows@.len(),
            out@.len() == k,
            forall|i: int| 0 <= i < k ==> terminal_row(#[trigger] rows@[i]@),
            forall|i: int| 0 <= i < k ==> decodes_terminal(rows@[i]@, #[trigger] out@[i]),
        decreases rows@.len() - k,
    {
        let item = decode_terminal(&rows[k])?;
        out.push(item);
        k = k + 1;
    }
    Ok(out)
}

/// Every row read as a thread, in order.
pub fn decode_threads(rows: &Vec<Vec<Cell>>) -> (r: CoreResult<Vec<ThreadIndex>>)
    ensures
        r is Ok <==> forall|i: int| 0 <= i < rows@.len() ==> thread_row(#[trigger] rows@[i]@),
        r matches Ok(v) ==> v@.len() == rows@.len() && forall|i: int|
            0 <= i < rows@.len() ==> decodes_thread(rows@[i]@, #[trigger] v@[i]),
        r matches Err(e) ==> is_storage_failure(e),
{
    let mut out: Vec<ThreadIndex> = Vec::new();
    let mut k: usize = 0;
    while k < rows.len()
        invariant
            k <= rows@.len(),
            out@.len() == k,
            forall|i: int| 0 <= i < k ==> thread_row(#[trigger] rows@[i]@),
            forall|i: int| 0 <= i < k ==> decodes_thread(rows@[i]@, #[trigger] out@[i]),
        decreases rows@.len() - k,
    {
        let item = decode_thread(&rows[k])?;
        out.push(item);
        k = k + 1;
    }
    Ok(out)
}

} // verus!
