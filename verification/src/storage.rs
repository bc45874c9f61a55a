//! Durable storage: one SQLite database under the runtime root, reached
//! through `rusqlite`. Each statement is run through a trusted call that hands
//! back plain cells; everything decided about what was read is verified.

use vstd::prelude::*;
use vstd::string::*;

use crate::error::{CoreError, CoreResult};
use crate::layout::Layout;
use crate::model::{
    Account, LaunchTransaction, LaunchView, Project, RecoveryAttempt, RecoveryIncident, Terminal,
    ThreadIndex, TransactionState,
};
use crate::rows::{Cell, SqlParam, is_storage_failure, is_int, int_of, is_text, text_of, is_opt_text, opt_text_of, opt_view};
use crate::rows::{
    account_row, attempt_row, decodes_account, decodes_attempt, decodes_incident, decodes_launch,
    decodes_project, decodes_terminal, decodes_thread, decodes_transaction, incident_row, launch_row,
    project_row, terminal_row, thread_row, transaction_row,
};
use crate::text::{str_before, str_eq, text_before};
use crate::paths::join;
use rusqlite::types::Value;

verus! {

/// The schema version this runtime writes.
pub const SCHEMA_VERSION: u32 = 5;

// ---------------------------------------------------------------------------
// The outside database interface.

#[verifier::external_type_specification]
#[verifier::external_body]
pub struct ExConnection(rusqlite::Connection);

#[verifier::external_type_specification]
#[verifier::external_body]
pub struct ExSqliteError(rusqlite::Error);

#[verifier::external_type_specification]
#[verifier::external_body]
pub struct ExSqliteTransaction<'conn>(rusqlite::Transaction<'conn>);

#[verifier::external_type_specification]
#[verifier::external_body]
pub struct ExSqliteValue(rusqlite::types::Value);

/// `rusqlite::Connection::open`: opens the database file at `path`, creating
/// it when absent. Nothing is claimed of the outcome.
#[verifier::external_body]
fn sqlite_open(path: &str) -> Result<rusqlite::Connection, rusqlite::Error> {
    rusqlite::Connection::open(path)
}

/// `Connection::busy_timeout`: how long a statement waits for a lock held by
/// another connection. The timeout is kept in milliseconds as an `i32`, and
/// a longer one panics, so it is at most 2147483 seconds. Nothing is claimed
/// of the outcome.
#[verifier::external_body]
fn sqlite_busy_timeout(connection: &rusqlite::Connection, seconds: u64) -> Result<(), rusqlite::Error>
    requires
        seconds <= 2147483,
{
    connection.busy_timeout(std::time::Duration::from_secs(seconds))
}

/// `Connection::pragma_update`: sets a connection pragma. Nothing is claimed
/// of the outcome.
#[verifier::external_body]
fn sqlite_pragma_update(connection: &rusqlite::Connection, name: &str, value: &str) -> Result<
    (),
    rusqlite::Error,
> {
    connection.pragma_update(None, name, value)
}

/// The statement parameters as `rusqlite` values, one for one: `NULL`,
/// integer and text each become the `Value` variant of the same name. Only
/// the count is stated: `Value` stays opaque here, since one of its variants
/// holds a float.
#[verifier::external_body]
fn sqlite_values(params: &[SqlParam]) -> (r: Vec<rusqlite::types::Value>)
    ensures
        r@.len() == params@.len(),
{
    params.iter().map(
        |p| match p {
            SqlParam::Null => rusqlite::types::Value::Null,
            SqlParam::Integer(v) => rusqlite::types::Value::Integer(*v),
            SqlParam::Text(t) => rusqlite::types::Value::Text(t.clone()),
        },
    ).collect()
}

/// `Connection::execute`: runs one statement and returns the number of rows
/// it changed. Nothing is claimed of the outcome: it depends on the database.
#[verifier::external_body]
fn sqlite_execute(connection: &rusqlite::Connection, sql: &str, params: Vec<rusqlite::types::Value>) -> Result<
    usize,
    rusqlite::Error,
> {
    connection.execute(sql, rusqlite::params_from_iter(params))
}

/// `Connection::execute_batch`: runs a batch of statements. Nothing is
/// claimed of the outcome.
#[verifier::external_body]
fn sqlite_execute_batch(connection: &rusqlite::Connection, sql: &str) -> Result<(), rusqlite::Error> {
    connection.execute_batch(sql)
}

/// `Connection::prepare`, `Statement::query`, `Rows::next` and `Row::get`:
/// every row of a query, read as the first `columns` values of each row.
/// `Row::get` refuses an index past the row's last column, so every row
/// handed back has exactly `columns` cells; what the rows hold depends on
/// the database and is not claimed.
#[verifier::external_body]
fn sqlite_query(connection: &rusqlite::Connection, sql: &str, params: Vec<rusqlite::types::Value>, columns: usize) -> (r: Result<Vec<Vec<Cell>>, rusqlite::Error>)
    ensures
        r matches Ok(rows) ==> forall|i: int| 0 <= i < rows@.len() ==> #[trigger] rows@[i]@.len() == columns,
{
    let mut statement = connection.prepare(sql)?;
    let mut rows = statement.query(rusqlite::params_from_iter(params))?;
    let mut out = Vec::new();
    while let Some(row) = rows.next()? {
        let mut cells = Vec::new();
        for i in 0..columns {
            cells.push(match row.get::<usize, Value>(i)? {
                Value::Null => Cell::Null, Value::Integer(v) => Cell::Integer(v), Value::Real(_) => Cell::Real,
                Value::Text(t) => Cell::Text(t), Value::Blob(_) => Cell::Blob,
            });
        }
        out.push(cells);
    }
    Ok(out)
}

/// `Connection::transaction`: begins a deferred transaction, rolled back when
/// dropped uncommitted. Nothing is claimed of the outcome.
#[verifier::external_body]
fn sqlite_transaction(connection: &mut rusqlite::Connection) -> Result<rusqlite::Transaction<'_>, rusqlite::Error> {
    connection.transaction()
}

/// The connection a transaction runs on (`Transaction` dereferences to it).
#[verifier::external_body]
fn transaction_connection<'a>(transaction: &'a rusqlite::Transaction<'_>) -> &'a rusqlite::Connection {
    transaction
}

/// `Transaction::commit`. Nothing is claimed of the outcome.
#[verifier::external_body]
fn sqlite_commit(transaction: rusqlite::Transaction<'_>) -> Result<(), rusqlite::Error> {
    transaction.commit()
}

/// `Error::sqlite_error_code`: whether the failure is SQLite's constraint
/// violation. Nothing is claimed: the error is opaque.
#[verifier::external_body]
fn is_constraint_violation(error: &rusqlite::Error) -> bool {
    error.sqlite_error_code() == Some(rusqlite::ErrorCode::ConstraintViolation)
}

/// A database failure as the runtime reports it: the cause is not disclosed.
fn stored<T>(r: Result<T, rusqlite::Error>) -> (o: CoreResult<T>)
    ensures
        r is Ok <==> o is Ok,
        o matches Ok(v) ==> r matches Ok(w) && v == w,
        o matches Err(e) ==> is_storage_failure(e),
{
    match r {
        Ok(v) => Ok(v),
        Err(e) => Err(CoreError::storage(e)),
    }
}

pub(crate) fn text_param(s: &str) -> (p: SqlParam)
    ensures
        p matches SqlParam::Text(t) && t@ == s@,
{
    SqlParam::Text(String::from_str(s))
}

pub(crate) fn opt_text_param(s: Option<&str>) -> (p: SqlParam)
    ensures
        s is None ==> p is Null,
        s matches Some(v) ==> p matches SqlParam::Text(t) && t@ == v@,
{
    match s {
        Some(v) => SqlParam::Text(String::from_str(v)),
        None => SqlParam::Null,
    }
}

// ---------------------------------------------------------------------------
// Single values read back.

/// The value of a query that yields one integer, such as `COUNT(*)` or the
/// `user_version` pragma: the first row's only cell.
pub open spec fn single_integer(rows: Seq<Seq<Cell>>) -> Option<i64> {
    if rows.len() >= 1 && rows[0].len() == 1 && is_int(rows[0][0]) {
        Some(int_of(rows[0][0]))
    } else {
        None
    }
}

/// The integer a single-value query returned.
pub fn read_single_integer(rows: &Vec<Vec<Cell>>) -> (r: CoreResult<i64>)
    ensures
        r is Ok <==> single_integer(rows@.map_values(|row: Vec<Cell>| row@)) is Some,
        r matches Ok(v) ==> single_integer(rows@.map_values(|row: Vec<Cell>| row@)) == Some(v),
        r matches Err(e) ==> is_storage_failure(e),
{
    let ghost view = rows@.map_values(|row: Vec<Cell>| row@);
    if rows.len() == 0 || rows[0].len() != 1 {
        return Err(CoreError::new("STORAGE_FAILURE", "a durable storage operation failed"));
    }
    assert(view[0] == rows@[0]@);
    match &rows[0][0] {
        Cell::Integer(v) => Ok(*v),
        _ => Err(CoreError::new("STORAGE_FAILURE", "a durable storage operation failed")),
    }
}

/// A row count as the runtime reports it: a negative count reads as zero.
pub open spec fn count_value(v: i64) -> u64 {
    if v < 0 {
        0
    } else {
        v as u64
    }
}

pub fn clamp_count(v: i64) -> (r: u64)
    ensures
        r == count_value(v),
{
    if v < 0 {
        0
    } else {
        v as u64
    }
}

/// A stored schema version, which must fit a `u32`.
pub fn schema_version_of(v: i64) -> (r: CoreResult<u32>)
    ensures
        r is Ok <==> 0 <= v <= u32::MAX,
        r matches Ok(x) ==> x == v,
        r matches Err(e) ==> is_storage_failure(e),
{
    if 0 <= v && v <= 4294967295i64 {
        Ok(v as u32)
    } else {
        Err(CoreError::new("STORAGE_FAILURE", "a durable storage operation failed"))
    }
}

/// Refuses a database written by a newer runtime.
pub fn check_schema_version(current: u32) -> (r: CoreResult<()>)
    ensures
        r is Ok <==> current <= SCHEMA_VERSION,
        r matches Err(e) ==> e.code@ == "MIGRATION_REQUIRED"@,
{
    if current > SCHEMA_VERSION {
        return Err(
            CoreError::new("MIGRATION_REQUIRED", "database schema is newer than this daemon"),
        );
    }
    Ok(())
}

/// The result of the database's own integrity check, accepted only as `ok`.
pub fn check_integrity(result: String) -> (r: CoreResult<String>)
    ensures
        r is Ok <==> result@ == "ok"@,
        r matches Ok(s) ==> s@ == "ok"@,
        r matches Err(e) ==> is_storage_failure(e),
{
    if !str_eq(result.as_str(), "ok") {
        return Err(CoreError::new("STORAGE_FAILURE", "database integrity check failed"));
    }
    Ok(result)
}

// ---------------------------------------------------------------------------
// Schema.

pub const MIGRATION_1: &'static str = "
    CREATE TABLE accounts (
        account_id TEXT PRIMARY KEY,
        display_name TEXT NOT NULL,
        masked_email TEXT,
        plan_type TEXT,
        login_status TEXT NOT NULL,
        credential_hash TEXT NOT NULL,
        vault_relative_path TEXT NOT NULL UNIQUE,
        archived_at INTEGER,
        created_at INTEGER NOT NULL,
        updated_at INTEGER NOT NULL
    );
    CREATE TABLE projects (
        project_id TEXT PRIMARY KEY,
        name TEXT NOT NULL,
        canonical_windows_path TEXT,
        canonical_wsl_path TEXT NOT NULL UNIQUE,
        runtime_relative_path TEXT NOT NULL UNIQUE,
        tmux_session_name TEXT NOT NULL UNIQUE,
        archived_at INTEGER,
        created_at INTEGER NOT NULL,
        updated_at INTEGER NOT NULL
    );
    CREATE TABLE launches (
        launch_id TEXT PRIMARY KEY,
        transaction_id TEXT NOT NULL UNIQUE,
        project_id TEXT NOT NULL REFERENCES projects(project_id),
        account_id TEXT NOT NULL REFERENCES accounts(account_id),
        outcome TEXT,
        started_at INTEGER NOT NULL,
        exited_at INTEGER
    );
    CREATE TABLE launch_transactions (
        transaction_id TEXT PRIMARY KEY REFERENCES launches(transaction_id),
        launch_id TEXT NOT NULL UNIQUE REFERENCES launches(launch_id),
        project_id TEXT NOT NULL REFERENCES projects(project_id),
        account_id TEXT NOT NULL REFERENCES accounts(account_id),
        state TEXT NOT NULL,
        runner_pid INTEGER,
        codex_pid INTEGER,
        boot_id TEXT,
        runner_start_ticks INTEGER,
        codex_start_ticks INTEGER,
        runner_identity TEXT,
        codex_identity TEXT,
        vault_hash_before_checkout TEXT,
        runtime_hash_at_checkout TEXT,
        runtime_hash_at_recovery TEXT,
        vault_hash_at_recovery TEXT,
        credential_backup_reference TEXT,
        last_error_code TEXT,
        last_error_message_redacted TEXT,
        recovery_attempts INTEGER NOT NULL DEFAULT 0,
        created_at INTEGER NOT NULL,
        updated_at INTEGER NOT NULL,
        schema_version INTEGER NOT NULL DEFAULT 1
    );
    CREATE TABLE recovery_incidents (
        incident_id TEXT PRIMARY KEY,
        transaction_id TEXT NOT NULL REFERENCES launch_transactions(transaction_id),
        kind TEXT NOT NULL,
        status TEXT NOT NULL,
        evidence_relative_path TEXT,
        created_at INTEGER NOT NULL,
        updated_at INTEGER NOT NULL
    );
    CREATE TABLE recovery_attempts (
        attempt_id TEXT PRIMARY KEY,
        incident_id TEXT NOT NULL REFERENCES recovery_incidents(incident_id),
        transaction_id TEXT NOT NULL REFERENCES launch_transactions(transaction_id),
        classification TEXT NOT NULL,
        result_state TEXT NOT NULL,
        error_code TEXT,
        created_at INTEGER NOT NULL
    );
    CREATE TABLE terminals (
        terminal_id TEXT PRIMARY KEY,
        project_id TEXT NOT NULL REFERENCES projects(project_id),
        kind TEXT NOT NULL,
        display_name TEXT NOT NULL,
        tmux_window_identity TEXT NOT NULL,
        lifecycle_status TEXT NOT NULL,
        ordinal INTEGER NOT NULL,
        created_at INTEGER NOT NULL,
        closed_at INTEGER,
        UNIQUE(project_id, tmux_window_identity)
    );
    CREATE TABLE usage_snapshots (
        usage_snapshot_id TEXT PRIMARY KEY,
        account_id TEXT NOT NULL REFERENCES accounts(account_id),
        codex_version TEXT NOT NULL,
        capability_fingerprint TEXT NOT NULL,
        snapshot_json TEXT NOT NULL,
        captured_at INTEGER NOT NULL,
        expires_at INTEGER NOT NULL,
        error_code TEXT
    );
    CREATE TABLE daemon_events (
        event_id TEXT PRIMARY KEY,
        event_type TEXT NOT NULL,
        resource_id TEXT,
        safe_details_json TEXT NOT NULL,
        created_at INTEGER NOT NULL
    );
    CREATE TABLE operations (
        operation_id TEXT PRIMARY KEY,
        method TEXT NOT NULL,
        request_hash TEXT NOT NULL,
        response_json TEXT,
        created_at INTEGER NOT NULL
    );
    PRAGMA user_version = 1;
";

pub const MIGRATION_2: &'static str = "
    CREATE UNIQUE INDEX active_launch_per_project
        ON launch_transactions(project_id)
        WHERE state NOT IN ('finished', 'recovered', 'credential_conflict', 'failed');
    CREATE UNIQUE INDEX active_launch_per_account
        ON launch_transactions(account_id)
        WHERE state NOT IN ('finished', 'recovered', 'credential_conflict', 'failed');
    CREATE INDEX recovery_incidents_open
        ON recovery_incidents(status, transaction_id);
    CREATE INDEX usage_snapshots_account_time
        ON usage_snapshots(account_id, captured_at DESC);
    PRAGMA user_version = 2;
";

pub const MIGRATION_3: &'static str = "
    ALTER TABLE recovery_incidents ADD COLUMN resolution_action TEXT;
    ALTER TABLE recovery_incidents ADD COLUMN resolution_summary TEXT;
    ALTER TABLE recovery_incidents ADD COLUMN resolved_at INTEGER;
    ALTER TABLE recovery_attempts ADD COLUMN action TEXT NOT NULL DEFAULT 'automatic_recovery';
    ALTER TABLE recovery_attempts ADD COLUMN completed_at INTEGER;
    CREATE TABLE thread_indexes (
        project_id TEXT NOT NULL REFERENCES projects(project_id),
        thread_id TEXT NOT NULL,
        source_relative_path TEXT NOT NULL,
        source_modified_at INTEGER NOT NULL,
        codex_version TEXT,
        status TEXT NOT NULL,
        indexed_at INTEGER NOT NULL,
        PRIMARY KEY(project_id, thread_id),
        UNIQUE(project_id, source_relative_path)
    );
    CREATE INDEX thread_indexes_project_time
        ON thread_indexes(project_id, source_modified_at DESC);
    CREATE TABLE recovery_runs (
        run_id TEXT PRIMARY KEY,
        transaction_id TEXT NOT NULL REFERENCES launch_transactions(transaction_id),
        status TEXT NOT NULL,
        classification TEXT,
        result_state TEXT,
        error_code TEXT,
        started_at INTEGER NOT NULL,
        completed_at INTEGER
    );
    CREATE INDEX recovery_runs_transaction_time
        ON recovery_runs(transaction_id, started_at DESC);
    PRAGMA user_version = 3;
";

pub const MIGRATION_4: &'static str = "
    ALTER TABLE terminals RENAME TO terminals_v3;
    CREATE TABLE terminals (
        terminal_id TEXT PRIMARY KEY,
        project_id TEXT NOT NULL REFERENCES projects(project_id),
        kind TEXT NOT NULL,
        display_name TEXT NOT NULL,
        tmux_window_identity TEXT NOT NULL,
        lifecycle_status TEXT NOT NULL,
        ordinal INTEGER NOT NULL,
        created_at INTEGER NOT NULL,
        closed_at INTEGER
    );
    INSERT INTO terminals(
        terminal_id,project_id,kind,display_name,tmux_window_identity,
        lifecycle_status,ordinal,created_at,closed_at
    ) SELECT
        terminal_id,project_id,kind,display_name,tmux_window_identity,
        lifecycle_status,ordinal,created_at,closed_at
    FROM terminals_v3;
    DROP TABLE terminals_v3;
    CREATE UNIQUE INDEX active_terminal_window_identity
        ON terminals(project_id,tmux_window_identity)
        WHERE lifecycle_status != 'closed';
    PRAGMA user_version = 4;
";

pub const MIGRATION_5: &'static str = "
    CREATE TABLE project_settings (
        project_id TEXT PRIMARY KEY REFERENCES projects(project_id),
        runtime TEXT NOT NULL,
        default_account_id TEXT REFERENCES accounts(account_id),
        default_model TEXT NOT NULL,
        reasoning TEXT NOT NULL,
        updated_at INTEGER NOT NULL
    );
    CREATE TABLE project_templates (
        template_id TEXT PRIMARY KEY,
        name TEXT NOT NULL UNIQUE,
        description TEXT NOT NULL,
        default_model TEXT NOT NULL,
        reasoning TEXT NOT NULL,
        terminal_presets_json TEXT NOT NULL,
        command_presets_json TEXT NOT NULL,
        created_at INTEGER NOT NULL,
        updated_at INTEGER NOT NULL
    );
    CREATE TABLE command_presets (
        preset_id TEXT PRIMARY KEY,
        project_id TEXT NOT NULL REFERENCES projects(project_id),
        name TEXT NOT NULL,
        description TEXT NOT NULL,
        terminal_kind TEXT NOT NULL,
        working_directory TEXT NOT NULL,
        command_text TEXT NOT NULL,
        created_at INTEGER NOT NULL,
        updated_at INTEGER NOT NULL,
        UNIQUE(project_id, name)
    );
    CREATE TABLE input_history (
        history_id TEXT PRIMARY KEY,
        project_id TEXT NOT NULL REFERENCES projects(project_id),
        terminal_id TEXT REFERENCES terminals(terminal_id),
        thread_id TEXT,
        kind TEXT NOT NULL,
        input_text TEXT NOT NULL,
        created_at INTEGER NOT NULL
    );
    CREATE INDEX input_history_scope_time
        ON input_history(project_id, terminal_id, thread_id, kind, created_at DESC);
    PRAGMA user_version = 5;
";

/// The statements that bring the schema from version `step - 1` to `step`.
pub fn migration(step: u32) -> (r: &'static str)
    requires
        1 <= step <= SCHEMA_VERSION,
    ensures
        step == 1 ==> r == MIGRATION_1,
        step == 2 ==> r == MIGRATION_2,
        step == 3 ==> r == MIGRATION_3,
        step == 4 ==> r == MIGRATION_4,
        step == 5 ==> r == MIGRATION_5,
{
    if step == 1 {
        MIGRATION_1
    } else if step == 2 {
        MIGRATION_2
    } else if step == 3 {
        MIGRATION_3
    } else if step == 4 {
        MIGRATION_4
    } else {
        MIGRATION_5
    }
}

// ---------------------------------------------------------------------------
// The store.

/// One query handed to SQLite: its text, its parameters, and the rows it
/// returned.
pub type Answer = (Seq<char>, Seq<SqlParam>, Seq<Seq<Cell>>);

/// How a connection was set up: the database file opened, the busy timeout
/// in seconds, and the pragmas set, in order.
pub type Setup = (Seq<char>, u64, Seq<(Seq<char>, Seq<char>)>);

/// The runtime's durable store, reached through a fresh connection for each
/// operation. It keeps, as ghost state, what it has handed to SQLite: the
/// statements that change the database, the queries with the rows they
/// returned, and how each connection was set up, each in order.
#[derive(Clone)]
pub struct Storage {
    layout: Layout,
    issued: Ghost<Seq<(Seq<char>, Seq<SqlParam>)>>,
    queried: Ghost<Seq<Answer>>,
    connections: Ghost<Seq<Setup>>,
    changes: Ghost<Seq<usize>>,
}

/// The setup every connection gets: the layout's database file, a
/// five-second busy timeout, foreign keys on, a write-ahead journal and full
/// synchronous writes.
pub open spec fn standard_setup(layout: Layout) -> Setup {
    (
        join(layout@, "muxlane.db"@),
        5,
        seq![("foreign_keys"@, "ON"@), ("journal_mode"@, "WAL"@), ("synchronous"@, "FULL"@)],
    )
}

/// The statements of migration `step`.
pub open spec fn migration_text(step: int) -> Seq<char> {
    if step == 1 {
        MIGRATION_1@
    } else if step == 2 {
        MIGRATION_2@
    } else if step == 3 {
        MIGRATION_3@
    } else if step == 4 {
        MIGRATION_4@
    } else {
        MIGRATION_5@
    }
}

/// `after` is `before` followed by migrations of strictly increasing steps,
/// each above `from` and at most `SCHEMA_VERSION`.
pub open spec fn migrated(
    before: Seq<(Seq<char>, Seq<SqlParam>)>,
    after: Seq<(Seq<char>, Seq<SqlParam>)>,
    from: int,
) -> bool {
    exists|steps: Seq<int>|
        #![trigger steps.len()]
        steps.len() == after.len() - before.len() && after.take(before.len() as int) == before
            && (forall|i: int|
            0 <= i < steps.len() ==> from < #[trigger] steps[i] <= SCHEMA_VERSION && after[before.len()
                + i] == (migration_text(steps[i]), Seq::<SqlParam>::empty())) && (forall|i: int, j: int|
            0 <= i < j < steps.len() ==> #[trigger] steps[i] < #[trigger] steps[j])
}

/// The queries answered before are still there, in order, at the start of
/// those answered after.
pub open spec fn reads_grown(before: Seq<Answer>, after: Seq<Answer>) -> bool {
    before.len() <= after.len() && forall|i: int| 0 <= i < before.len() ==> #[trigger] after[i] == before[i]
}

/// `after` is `before` with one more answered query: `sql` with the given
/// text parameters.
pub open spec fn answered(before: Seq<Answer>, after: Seq<Answer>, sql: Seq<char>, texts: Seq<Seq<char>>) -> bool {
    &&& after.len() == before.len() + 1
    &&& reads_grown(before, after)
    &&& asked_with(after.last(), sql, texts)
}

/// Query `a` was `sql` with the given text parameters.
pub open spec fn asked_with(a: Answer, sql: Seq<char>, texts: Seq<Seq<char>>) -> bool {
    &&& a.0 == sql
    &&& a.1.len() == texts.len()
    &&& forall|i: int| 0 <= i < texts.len() ==> text_is(#[trigger] a.1[i], texts[i])
}

/// The rows the last answered query returned.
pub open spec fn last_rows(log: Seq<Answer>) -> Seq<Seq<Cell>> {
    log.last().2
}

/// What a read leaves unchanged: the layout and the changing statements;
/// the queries answered before stay as they were.
pub open spec fn read_from(before: Storage, after: Storage) -> bool {
    &&& after.spec_layout() == before.spec_layout()
    &&& after.issued() == before.issued()
    &&& after.changes() == before.changes()
    &&& reads_grown(before.queried(), after.queried())
}

impl Storage {
    /// The layout whose database this store uses.
    pub closed spec fn spec_layout(&self) -> Layout {
        self.layout
    }

    /// The changing statements this store has handed to SQLite, each with
    /// its parameters, oldest first.
    pub closed spec fn issued(&self) -> Seq<(Seq<char>, Seq<SqlParam>)> {
        self.issued@
    }

    /// The queries this store has handed to SQLite, each with its parameters
    /// and the rows it returned, oldest first.
    pub closed spec fn queried(&self) -> Seq<Answer> {
        self.queried@
    }

    /// How each connection this store opened was set up, oldest first.
    pub closed spec fn connections(&self) -> Seq<Setup> {
        self.connections@
    }

    /// The number of rows SQLite reported changed by each changing statement
    /// that it carried out, oldest first.
    pub closed spec fn changes(&self) -> Seq<usize> {
        self.changes@
    }

    /// Hands one changing statement to SQLite on `connection`, and records it.
    fn issue(&mut self, connection: &rusqlite::Connection, sql: &str, params: &[SqlParam]) -> (r:
        CoreResult<usize>)
        ensures
            final(self).issued() == old(self).issued().push((sql@, params@)),
            final(self).spec_layout() == old(self).spec_layout(),
            final(self).queried() == old(self).queried(),
            final(self).connections() == old(self).connections(),
            r matches Ok(n) ==> final(self).changes() == old(self).changes().push(n),
            r is Err ==> final(self).changes() == old(self).changes(),
            r matches Err(e) ==> is_storage_failure(e),
    {
        let r = stored(sqlite_execute(connection, sql, sqlite_values(params)));
        proof {
            self.issued@ = self.issued@.push((sql@, params@));
            self.changes@ = match r {
                Ok(n) => self.changes@.push(n),
                Err(_) => self.changes@,
            };
        }
        r
    }

    /// Hands one query to SQLite on `connection`, and records it with the rows
    /// it returned.
    fn ask(&mut self, connection: &rusqlite::Connection, sql: &str, params: &[SqlParam], columns: usize)
        -> (r: CoreResult<Vec<Vec<Cell>>>)
        ensures
            read_from(*old(self), *final(self)),
            final(self).connections() == old(self).connections(),
            r is Err ==> final(self).queried() == old(self).queried(),
            r matches Ok(rows) ==> final(self).queried() == old(self).queried().push(
                (sql@, params@, crate::rows::rows_view(rows@)),
            ),
            r matches Ok(rows) ==> forall|i: int| 0 <= i < rows@.len() ==> #[trigger] rows@[i]@.len() == columns,
            r matches Err(e) ==> is_storage_failure(e),
    {
        let rows = stored(sqlite_query(connection, sql, sqlite_values(params), columns))?;
        proof {
            self.queried@ = self.queried@.push((sql@, params@, crate::rows::rows_view(rows@)));
        }
        Ok(rows)
    }

    /// Opens the store and brings its schema up to `SCHEMA_VERSION`; a
    /// database of a newer schema is refused and left as it is (see
    /// `migrate`).
    pub fn open(layout: Layout) -> (r: CoreResult<Storage>)
        ensures
            r matches Ok(s) ==> s.spec_layout() == layout,
            r matches Ok(s) ==> s.connections() == seq![standard_setup(layout)],
            r matches Ok(s) ==> s.queried().len() >= 1 && asked_with(s.queried()[0], "PRAGMA user_version"@, seq![])
                && single_integer(s.queried()[0].2) is Some && migrated(
                Seq::empty(),
                s.issued(),
                single_integer(s.queried()[0].2)->0 as int,
            ),
            r matches Err(e) ==> is_storage_failure(e) || e.code@ == "MIGRATION_REQUIRED"@,
    {
        let mut storage = Storage {
            layout,
            issued: Ghost(Seq::empty()),
            queried: Ghost(Seq::empty()),
            connections: Ghost(Seq::empty()),
            changes: Ghost(Seq::empty()),
        };
        let mut connection = storage.connect()?;
        storage.migrate_on(&mut connection)?;
        Ok(storage)
    }

    pub fn layout(&self) -> (r: &Layout)
        ensures
            *r == self.spec_layout(),
    {
        &self.layout
    }

    /// A connection to the database, configured as every operation uses it:
    /// a five-second busy timeout, foreign keys on, a write-ahead journal and
    /// full synchronous writes.
    pub fn connect(&mut self) -> (r: CoreResult<rusqlite::Connection>)
        ensures
            read_from(*old(self), *final(self)),
            final(self).queried() == old(self).queried(),
            r is Ok ==> final(self).connections() == old(self).connections().push(
                standard_setup(old(self).spec_layout()),
            ),
            r is Err ==> final(self).connections() == old(self).connections(),
            r matches Err(e) ==> is_storage_failure(e),
    {
        let path = self.layout.database();
        let connection = stored(sqlite_open(path.as_str()))?;
        stored(sqlite_busy_timeout(&connection, 5))?;
        stored(sqlite_pragma_update(&connection, "foreign_keys", "ON"))?;
        stored(sqlite_pragma_update(&connection, "journal_mode", "WAL"))?;
        stored(sqlite_pragma_update(&connection, "synchronous", "FULL"))?;
        proof {
            self.connections@ = self.connections@.push(standard_setup(self.layout));
        }
        Ok(connection)
    }

    /// The schema version the database records.
    fn user_version(&mut self, connection: &rusqlite::Connection) -> (r: CoreResult<u32>)
        ensures
            read_from(*old(self), *final(self)),
            final(self).connections() == old(self).connections(),
            r is Ok ==> answered(old(self).queried(), final(self).queried(), "PRAGMA user_version"@, seq![])
                && single_integer(last_rows(final(self).queried())) == Some(r->Ok_0 as i64),
            r matches Err(e) ==> is_storage_failure(e),
    {
        let rows = self.ask(connection, "PRAGMA user_version", &[], 1)?;
        let value = read_single_integer(&rows)?;
        schema_version_of(value)
    }

    /// Brings the schema up to `SCHEMA_VERSION` on `connection`: each
    /// migration above the recorded version runs, in order, in a transaction
    /// of its own. A database of a newer schema is refused before anything
    /// is changed.
    pub fn migrate_on(&mut self, connection: &mut rusqlite::Connection) -> (r: CoreResult<()>)
        ensures
            final(self).spec_layout() == old(self).spec_layout(),
            final(self).connections() == old(self).connections(),
            reads_grown(old(self).queried(), final(self).queried()),
            r is Ok ==> final(self).queried().len() > old(self).queried().len() && asked_with(
                final(self).queried()[old(self).queried().len() as int],
                "PRAGMA user_version"@,
                seq![],
            ) && single_integer(final(self).queried()[old(self).queried().len() as int].2) is Some
                && migrated(
                old(self).issued(),
                final(self).issued(),
                single_integer(final(self).queried()[old(self).queried().len() as int].2)->0 as int,
            ),
            r matches Err(e) && e.code@ == "MIGRATION_REQUIRED"@ ==> final(self).issued() == old(self).issued(),
            r matches Err(e) ==> is_storage_failure(e) || e.code@ == "MIGRATION_REQUIRED"@,
    {
        proof {
            reveal_strlit("MIGRATION_REQUIRED");
            reveal_strlit("STORAGE_FAILURE");
            assert("MIGRATION_REQUIRED"@[0] != "STORAGE_FAILURE"@[0]);
        }
        let current = self.user_version(connection)?;
        check_schema_version(current)?;
        let ghost o = old(self).queried().len() as int;
        let ghost first = self.queried()[o];
        let ghost steps: Seq<int> = Seq::empty();
        let mut step: u32 = 1;
        while step <= SCHEMA_VERSION
            invariant
                1 <= step <= SCHEMA_VERSION + 1,
                "MIGRATION_REQUIRED"@ != "STORAGE_FAILURE"@,
                current <= SCHEMA_VERSION,
                self.spec_layout() == old(self).spec_layout(),
                self.connections() == old(self).connections(),
                reads_grown(old(self).queried(), self.queried()),
                self.queried().len() > o,
                self.queried()[o] == first,
                o == old(self).queried().len(),
                single_integer(first.2) == Some(current as i64),
                steps.len() == self.issued().len() - old(self).issued().len(),
                self.issued().take(old(self).issued().len() as int) == old(self).issued(),
                self.issued().len() >= old(self).issued().len(),
                forall|i: int|
                    0 <= i < steps.len() ==> current < #[trigger] steps[i] < step && self.issued()[old(
                        self,
                    ).issued().len() + i] == (migration_text(steps[i]), Seq::<SqlParam>::empty()),
                forall|i: int, j: int| 0 <= i < j < steps.len() ==> #[trigger] steps[i] < #[trigger] steps[j],
            decreases SCHEMA_VERSION + 1 - step,
        {
            let now_at = self.user_version(connection)?;
            if now_at < step && current < step {
                let transaction = stored(sqlite_transaction(connection))?;
                let statements = migration(step);
                stored(sqlite_execute_batch(transaction_connection(&transaction), statements))?;
                stored(sqlite_commit(transaction))?;
                proof {
                    let before = self.issued@;
                    self.issued@ = self.issued@.push((statements@, Seq::<SqlParam>::empty()));
                    steps = steps.push(step as int);
                    assert(self.issued().take(old(self).issued().len() as int) =~= before.take(old(self).issued().len() as int));
                }
            }
            step = step + 1;
        }
        proof {
            assert(migrated(old(self).issued(), self.issued(), current as int)) by {
                assert(steps.len() == self.issued().len() - old(self).issued().len());
            }
        }
        Ok(())
    }

    /// The schema version the database records.
    pub fn schema_version(&mut self) -> (r: CoreResult<u32>)
        ensures
            read_from(*old(self), *final(self)),
            r is Ok ==> answered(old(self).queried(), final(self).queried(), "PRAGMA user_version"@, seq![])
                && single_integer(last_rows(final(self).queried())) == Some(r->Ok_0 as i64),
            r matches Err(e) ==> is_storage_failure(e),
    {
        let connection = self.connect()?;
        self.user_version(&connection)
    }

    /// The database's quick integrity check, which must report `ok`.
    pub fn integrity(&mut self) -> (r: CoreResult<String>)
        ensures
            read_from(*old(self), *final(self)),
            r is Ok ==> answered(old(self).queried(), final(self).queried(), "PRAGMA quick_check"@, seq![])
                && last_rows(final(self).queried()).len() > 0 && text_of(last_rows(final(self).queried())[0][0])
                == "ok"@,
            r matches Ok(s) ==> s@ == "ok"@,
            r matches Err(e) ==> is_storage_failure(e),
    {
        let connection = self.connect()?;
        let rows = self.ask(&connection, "PRAGMA quick_check", &[], 1)?;
        if rows.len() == 0 {
            return Err(CoreError::new("STORAGE_FAILURE", "a durable storage operation failed"));
        }
        let result = crate::rows::text_cell(&rows[0], 0)?;
        check_integrity(result)
    }
}

/// Refuses a read whose rows do not answer what was asked: the store is
/// then not what this library wrote.
fn check_read(answers: bool) -> (r: CoreResult<()>)
    ensures
        r is Ok <==> answers,
        r matches Err(e) ==> is_storage_failure(e),
{
    if answers {
        Ok(())
    } else {
        Err(CoreError::new("STORAGE_FAILURE", "a durable storage operation failed"))
    }
}

/// The first account whose `account_id` is `id`.
pub fn find_account(items: Vec<Account>, id: &str) -> (r: CoreResult<Account>)
    ensures
        r is Ok <==> exists|i: int| 0 <= i < items@.len() && (#[trigger] items@[i]).account_id@ == id@,
        r matches Ok(x) ==> exists|i: int|
            0 <= i < items@.len() && x == items@[i] && x.account_id@ == id@ && forall|j: int|
                0 <= j < i ==> (#[trigger] items@[j]).account_id@ != id@,
        r matches Err(e) ==> e.code@ == "NOT_FOUND"@,
{
    let mut pool = items;
    let ghost initial = pool@;
    let mut k: usize = 0;
    while k < pool.len()
        invariant
            pool@ == initial,
            initial == items@,
            k <= pool@.len(),
            forall|j: int| 0 <= j < k ==> (#[trigger] pool@[j]).account_id@ != id@,
        decreases pool@.len() - k,
    {
        if str_eq(pool[k].account_id.as_str(), id) {
            let x = pool.remove(k);
            assert(initial[k as int] == x);
            return Ok(x);
        }
        k = k + 1;
    }
    Err(CoreError::new("NOT_FOUND", "account was not found"))
}

/// The first project whose `project_id` is `id`.
pub fn find_project(items: Vec<Project>, id: &str) -> (r: CoreResult<Project>)
    ensures
        r is Ok <==> exists|i: int| 0 <= i < items@.len() && (#[trigger] items@[i]).project_id@ == id@,
        r matches Ok(x) ==> exists|i: int|
            0 <= i < items@.len() && x == items@[i] && x.project_id@ == id@ && forall|j: int|
                0 <= j < i ==> (#[trigger] items@[j]).project_id@ != id@,
        r matches Err(e) ==> e.code@ == "NOT_FOUND"@,
{
    let mut pool = items;
    let ghost initial = pool@;
    let mut k: usize = 0;
    while k < pool.len()
        invariant
            pool@ == initial,
            initial == items@,
            k <= pool@.len(),
            forall|j: int| 0 <= j < k ==> (#[trigger] pool@[j]).project_id@ != id@,
        decreases pool@.len() - k,
    {
        if str_eq(pool[k].project_id.as_str(), id) {
            let x = pool.remove(k);
            assert(initial[k as int] == x);
            return Ok(x);
        }
        k = k + 1;
    }
    Err(CoreError::new("NOT_FOUND", "project was not found"))
}

/// The first launch whose `launch_id` is `id`.
pub fn find_launch(items: Vec<LaunchView>, id: &str) -> (r: CoreResult<LaunchView>)
    ensures
        r is Ok <==> exists|i: int| 0 <= i < items@.len() && (#[trigger] items@[i]).launch_id@ == id@,
        r matches Ok(x) ==> exists|i: int|
            0 <= i < items@.len() && x == items@[i] && x.launch_id@ == id@ && forall|j: int|
                0 <= j < i ==> (#[trigger] items@[j]).launch_id@ != id@,
        r matches Err(e) ==> e.code@ == "NOT_FOUND"@,
{
    let mut pool = items;
    let ghost initial = pool@;
    let mut k: usize = 0;
    while k < pool.len()
        invariant
            pool@ == initial,
            initial == items@,
            k <= pool@.len(),
            forall|j: int| 0 <= j < k ==> (#[trigger] pool@[j]).launch_id@ != id@,
        decreases pool@.len() - k,
    {
        if str_eq(pool[k].launch_id.as_str(), id) {
            let x = pool.remove(k);
            assert(initial[k as int] == x);
            return Ok(x);
        }
        k = k + 1;
    }
    Err(CoreError::new("NOT_FOUND", "launch was not found"))
}

/// The `SELECT` of an account row, with whether it holds an active launch.
pub const ACCOUNT_QUERY: &'static str = "SELECT a.account_id,a.display_name,a.masked_email,a.plan_type,a.login_status,a.credential_hash,a.created_at,a.updated_at,EXISTS(SELECT 1 FROM launch_transactions t WHERE t.account_id=a.account_id AND t.state NOT IN ('finished','recovered','credential_conflict','failed')) FROM accounts a WHERE a.archived_at IS NULL ORDER BY a.created_at,a.account_id";

pub const PROJECT_QUERY: &'static str = "SELECT p.project_id,p.name,p.canonical_windows_path,p.canonical_wsl_path,p.runtime_relative_path,p.tmux_session_name,p.created_at,p.updated_at,EXISTS(SELECT 1 FROM launch_transactions t WHERE t.project_id=p.project_id AND t.state NOT IN ('finished','recovered','credential_conflict','failed')),p.archived_at FROM projects p WHERE p.archived_at IS NULL ORDER BY p.created_at,p.project_id";

pub const PROJECT_QUERY_WITH_ARCHIVED: &'static str = "SELECT p.project_id,p.name,p.canonical_windows_path,p.canonical_wsl_path,p.runtime_relative_path,p.tmux_session_name,p.created_at,p.updated_at,EXISTS(SELECT 1 FROM launch_transactions t WHERE t.project_id=p.project_id AND t.state NOT IN ('finished','recovered','credential_conflict','failed')),p.archived_at FROM projects p  ORDER BY p.created_at,p.project_id";

pub const TRANSACTION_QUERY: &'static str = "SELECT transaction_id,launch_id,project_id,account_id,state,runner_pid,codex_pid,boot_id,runner_start_ticks,codex_start_ticks,runner_identity,codex_identity,vault_hash_before_checkout,runtime_hash_at_checkout,runtime_hash_at_recovery,vault_hash_at_recovery,credential_backup_reference,last_error_code,last_error_message_redacted,recovery_attempts,created_at,updated_at FROM launch_transactions WHERE transaction_id=?";

pub const NONTERMINAL_TRANSACTIONS_QUERY: &'static str = "SELECT transaction_id,launch_id,project_id,account_id,state,runner_pid,codex_pid,boot_id,runner_start_ticks,codex_start_ticks,runner_identity,codex_identity,vault_hash_before_checkout,runtime_hash_at_checkout,runtime_hash_at_recovery,vault_hash_at_recovery,credential_backup_reference,last_error_code,last_error_message_redacted,recovery_attempts,created_at,updated_at FROM launch_transactions WHERE state NOT IN ('finished','recovered','credential_conflict','failed') ORDER BY created_at";

pub const LAUNCH_QUERY: &'static str = "SELECT l.launch_id,l.transaction_id,l.project_id,l.account_id,t.state,l.outcome,l.started_at,l.exited_at FROM launches l JOIN launch_transactions t ON t.transaction_id=l.transaction_id ORDER BY l.started_at DESC";

pub const INCIDENT_QUERY: &'static str = "SELECT i.incident_id,i.transaction_id,t.project_id,t.account_id,i.kind,i.status,i.evidence_relative_path,i.resolution_action,i.resolution_summary,i.created_at,i.updated_at,i.resolved_at FROM recovery_incidents i JOIN launch_transactions t ON t.transaction_id=i.transaction_id WHERE i.incident_id=?";

pub const OPEN_INCIDENTS_QUERY: &'static str = "SELECT i.incident_id,i.transaction_id,t.project_id,t.account_id,i.kind,i.status,i.evidence_relative_path,i.resolution_action,i.resolution_summary,i.created_at,i.updated_at,i.resolved_at FROM recovery_incidents i JOIN launch_transactions t ON t.transaction_id=i.transaction_id WHERE i.status='open' ORDER BY i.created_at,i.incident_id";

pub const ALL_INCIDENTS_QUERY: &'static str = "SELECT i.incident_id,i.transaction_id,t.project_id,t.account_id,i.kind,i.status,i.evidence_relative_path,i.resolution_action,i.resolution_summary,i.created_at,i.updated_at,i.resolved_at FROM recovery_incidents i JOIN launch_transactions t ON t.transaction_id=i.transaction_id  ORDER BY i.created_at,i.incident_id";

pub const ATTEMPTS_QUERY: &'static str = "SELECT attempt_id,incident_id,transaction_id,action,classification,result_state,error_code,created_at,completed_at FROM recovery_attempts WHERE incident_id=? ORDER BY created_at,attempt_id";

pub const TERMINALS_QUERY: &'static str = "SELECT terminal_id,project_id,kind,display_name,tmux_window_identity,lifecycle_status,created_at,closed_at,ordinal FROM terminals WHERE project_id=? ORDER BY ordinal";

pub const TERMINAL_QUERY: &'static str = "SELECT terminal_id,project_id,kind,display_name,tmux_window_identity,lifecycle_status,created_at,closed_at FROM terminals WHERE terminal_id=?";

pub const THREADS_QUERY: &'static str = "SELECT thread_id,project_id,source_relative_path,source_modified_at,codex_version,status,indexed_at FROM thread_indexes WHERE project_id=? ORDER BY source_modified_at DESC,thread_id";

pub const OPEN_INCIDENT_PROBE: &'static str = "SELECT t.project_id,i.status FROM recovery_incidents i JOIN launch_transactions t ON t.transaction_id=i.transaction_id WHERE t.project_id=? AND i.status='open' LIMIT 1";

pub const RUNNING_RUNS_QUERY: &'static str = "SELECT run_id,status FROM recovery_runs WHERE status='running'";

pub const LATEST_USAGE_QUERY: &'static str = "SELECT account_id,snapshot_json FROM usage_snapshots WHERE account_id=? ORDER BY captured_at DESC LIMIT 1";

pub const LAUNCH_TRANSACTION_QUERY: &'static str = "SELECT transaction_id FROM launches WHERE launch_id=?";

pub const ACCOUNT_COUNT: &'static str = "SELECT COUNT(*) FROM accounts";

pub const PROJECT_COUNT: &'static str = "SELECT COUNT(*) FROM projects";

pub const LAUNCH_COUNT: &'static str = "SELECT COUNT(*) FROM launches";

pub const INCIDENT_COUNT: &'static str = "SELECT COUNT(*) FROM recovery_incidents";

/// Query `a` was the count `sql`, and `n` is the count it returned, a
/// negative one read as zero.
pub open spec fn is_count(a: Answer, sql: Seq<char>, n: u64) -> bool {
    &&& asked_with(a, sql, seq![])
    &&& single_integer(a.2) is Some
    &&& n == count_value(single_integer(a.2)->0)
}

/// The terminal rows at `i` and `i + 1` are in the order of their ordinals.
pub open spec fn ordinals_ordered_at(rows: Seq<Seq<Cell>>, i: int) -> bool {
    int_of(rows[i][8]) <= int_of(rows[i + 1][8])
}

/// Whether account `a` comes before `b`: earlier `created_at` first, then the smaller identifier.
pub open spec fn account_precedes(a: Account, b: Account) -> bool {
    a.created_at < b.created_at || (a.created_at == b.created_at && text_before(a.account_id@, b.account_id@))
}

/// The accounts at `i` and `i + 1` are in order.
pub open spec fn accounts_ordered_at(v: Seq<Account>, i: int) -> bool {
    account_precedes(v[i], v[i + 1])
}

fn account_before(a: &Account, b: &Account) -> (r: bool)
    ensures
        r ==> account_precedes(*a, *b),
{
    a.created_at < b.created_at || (a.created_at == b.created_at && str_before(a.account_id.as_str(), b.account_id.as_str()))
}

/// Whether project `a` comes before `b`: earlier `created_at` first, then the smaller identifier.
pub open spec fn project_precedes(a: Project, b: Project) -> bool {
    a.created_at < b.created_at || (a.created_at == b.created_at && text_before(a.project_id@, b.project_id@))
}

/// The projects at `i` and `i + 1` are in order.
pub open spec fn projects_ordered_at(v: Seq<Project>, i: int) -> bool {
    project_precedes(v[i], v[i + 1])
}

fn project_before(a: &Project, b: &Project) -> (r: bool)
    ensures
        r ==> project_precedes(*a, *b),
{
    a.created_at < b.created_at || (a.created_at == b.created_at && str_before(a.project_id.as_str(), b.project_id.as_str()))
}

/// Whether incident `a` comes before `b`: earlier `created_at` first, then the smaller identifier.
pub open spec fn incident_precedes(a: RecoveryIncident, b: RecoveryIncident) -> bool {
    a.created_at < b.created_at || (a.created_at == b.created_at && text_before(a.incident_id@, b.incident_id@))
}

/// The incidents at `i` and `i + 1` are in order.
pub open spec fn incidents_ordered_at(v: Seq<RecoveryIncident>, i: int) -> bool {
    incident_precedes(v[i], v[i + 1])
}

fn incident_before(a: &RecoveryIncident, b: &RecoveryIncident) -> (r: bool)
    ensures
        r ==> incident_precedes(*a, *b),
{
    a.created_at < b.created_at || (a.created_at == b.created_at && str_before(a.incident_id.as_str(), b.incident_id.as_str()))
}

/// Whether attempt `a` comes before `b`: earlier `created_at` first, then the smaller identifier.
pub open spec fn attempt_precedes(a: RecoveryAttempt, b: RecoveryAttempt) -> bool {
    a.created_at < b.created_at || (a.created_at == b.created_at && text_before(a.attempt_id@, b.attempt_id@))
}

/// The attempts at `i` and `i + 1` are in order.
pub open spec fn attempts_ordered_at(v: Seq<RecoveryAttempt>, i: int) -> bool {
    attempt_precedes(v[i], v[i + 1])
}

fn attempt_before(a: &RecoveryAttempt, b: &RecoveryAttempt) -> (r: bool)
    ensures
        r ==> attempt_precedes(*a, *b),
{
    a.created_at < b.created_at || (a.created_at == b.created_at && str_before(a.attempt_id.as_str(), b.attempt_id.as_str()))
}

/// Whether thread `a` comes before `b`: later `source_modified_at` first, then the smaller identifier.
pub open spec fn thread_precedes(a: ThreadIndex, b: ThreadIndex) -> bool {
    a.source_modified_at > b.source_modified_at || (a.source_modified_at == b.source_modified_at && text_before(a.thread_id@, b.thread_id@))
}

/// The threads at `i` and `i + 1` are in order.
pub open spec fn threads_ordered_at(v: Seq<ThreadIndex>, i: int) -> bool {
    thread_precedes(v[i], v[i + 1])
}

fn thread_before(a: &ThreadIndex, b: &ThreadIndex) -> (r: bool)
    ensures
        r ==> thread_precedes(*a, *b),
{
    a.source_modified_at > b.source_modified_at || (a.source_modified_at == b.source_modified_at && str_before(a.thread_id.as_str(), b.thread_id.as_str()))
}

/// Whether transaction `a` may come before `b`: its `created_at` is no later.
pub open spec fn transaction_precedes(a: LaunchTransaction, b: LaunchTransaction) -> bool {
    a.created_at <= b.created_at
}

/// The transactions at `i` and `i + 1` are in order.
pub open spec fn transactions_ordered_at(v: Seq<LaunchTransaction>, i: int) -> bool {
    transaction_precedes(v[i], v[i + 1])
}

fn transaction_before(a: &LaunchTransaction, b: &LaunchTransaction) -> (r: bool)
    ensures
        r ==> transaction_precedes(*a, *b),
{
    a.created_at <= b.created_at
}

/// Whether launch `a` may come before `b`: its `started_at` is no earlier.
pub open spec fn launch_precedes(a: LaunchView, b: LaunchView) -> bool {
    a.started_at >= b.started_at
}

/// The launches at `i` and `i + 1` are in order.
pub open spec fn launches_ordered_at(v: Seq<LaunchView>, i: int) -> bool {
    launch_precedes(v[i], v[i + 1])
}

fn launch_before(a: &LaunchView, b: &LaunchView) -> (r: bool)
    ensures
        r ==> launch_precedes(*a, *b),
{
    a.started_at >= b.started_at
}

/// `v` is what the rows decode to, one for one and in order.
pub open spec fn all_decode_account(rows: Seq<Seq<Cell>>, v: Seq<Account>) -> bool {
    v.len() == rows.len() && forall|i: int|
        0 <= i < v.len() ==> account_row(rows[i]) && decodes_account(rows[i], #[trigger] v[i])
}

/// `v` is what the rows decode to, one for one and in order.
pub open spec fn all_decode_project(rows: Seq<Seq<Cell>>, v: Seq<Project>) -> bool {
    v.len() == rows.len() && forall|i: int|
        0 <= i < v.len() ==> project_row(rows[i]) && decodes_project(rows[i], #[trigger] v[i])
}

/// `v` is what the rows decode to, one for one and in order.
pub open spec fn all_decode_transaction(rows: Seq<Seq<Cell>>, v: Seq<LaunchTransaction>) -> bool {
    v.len() == rows.len() && forall|i: int|
        0 <= i < v.len() ==> transaction_row(rows[i]) && decodes_transaction(rows[i], #[trigger] v[i])
}

/// `v` is what the rows decode to, one for one and in order.
pub open spec fn all_decode_launch(rows: Seq<Seq<Cell>>, v: Seq<LaunchView>) -> bool {
    v.len() == rows.len() && forall|i: int|
        0 <= i < v.len() ==> launch_row(rows[i]) && decodes_launch(rows[i], #[trigger] v[i])
}

/// `v` is what the rows decode to, one for one and in order.
pub open spec fn all_decode_incident(rows: Seq<Seq<Cell>>, v: Seq<RecoveryIncident>) -> bool {
    v.len() == rows.len() && forall|i: int|
        0 <= i < v.len() ==> incident_row(rows[i]) && decodes_incident(rows[i], #[trigger] v[i])
}

/// `v` is what the rows decode to, one for one and in order.
pub open spec fn all_decode_attempt(rows: Seq<Seq<Cell>>, v: Seq<RecoveryAttempt>) -> bool {
    v.len() == rows.len() && forall|i: int|
        0 <= i < v.len() ==> attempt_row(rows[i]) && decodes_attempt(rows[i], #[trigger] v[i])
}

/// `v` is what the rows decode to, one for one and in order.
pub open spec fn all_decode_terminal(rows: Seq<Seq<Cell>>, v: Seq<Terminal>) -> bool {
    v.len() == rows.len() && forall|i: int|
        0 <= i < v.len() ==> terminal_row(rows[i]) && decodes_terminal(rows[i], #[trigger] v[i])
}

/// `v` is what the rows decode to, one for one and in order.
pub open spec fn all_decode_thread(rows: Seq<Seq<Cell>>, v: Seq<ThreadIndex>) -> bool {
    v.len() == rows.len() && forall|i: int|
        0 <= i < v.len() ==> thread_row(rows[i]) && decodes_thread(rows[i], #[trigger] v[i])
}

/// A row naming an open incident of a launch of project `project_id`.
pub open spec fn is_open_incident_row(row: Seq<Cell>, project_id: Seq<char>) -> bool {
    row.len() == 2 && is_text(row[0]) && text_of(row[0]) == project_id && is_text(row[1])
        && text_of(row[1]) == "open"@
}

/// A row of a recovery run still running.
pub open spec fn is_running_run_row(row: Seq<Cell>) -> bool {
    row.len() == 2 && is_text(row[1]) && text_of(row[1]) == "running"@
}

/// A row of account `account_id`'s cached usage, encoded as `text`.
pub open spec fn is_usage_row(row: Seq<Cell>, account_id: Seq<char>, text: Seq<char>) -> bool {
    row.len() == 2 && is_text(row[0]) && text_of(row[0]) == account_id && is_text(row[1])
        && text_of(row[1]) == text
}

/// Whether an error is a storage failure or the given code.
pub open spec fn storage_or(e: CoreError, code: Seq<char>) -> bool {
    is_storage_failure(e) || e.code@ == code
}

impl Storage {
    /// Hands one query to SQLite on a fresh connection, and records it.
    pub(crate) fn query(&mut self, sql: &str, params: &[SqlParam], columns: usize) -> (r: CoreResult<
        Vec<Vec<Cell>>,
    >)
        ensures
            read_from(*old(self), *final(self)),
            r is Err ==> final(self).queried() == old(self).queried(),
            r matches Ok(rows) ==> final(self).queried() == old(self).queried().push(
                (sql@, params@, crate::rows::rows_view(rows@)),
            ),
            r matches Ok(rows) ==> forall|i: int| 0 <= i < rows@.len() ==> #[trigger] rows@[i]@.len() == columns,
            r matches Err(e) ==> is_storage_failure(e),
    {
        let connection = self.connect()?;
        self.ask(&connection, sql, params, columns)
    }

    /// Hands one query with one text parameter to SQLite, and records it.
    pub(crate) fn query_by_id(&mut self, sql: &str, id: &str, columns: usize) -> (r: CoreResult<
        Vec<Vec<Cell>>,
    >)
        ensures
            read_from(*old(self), *final(self)),
            r is Err ==> final(self).queried() == old(self).queried(),
            r matches Ok(rows) ==> answered(old(self).queried(), final(self).queried(), sql@, seq![id@])
                && last_rows(final(self).queried()) == crate::rows::rows_view(rows@),
            r matches Ok(rows) ==> forall|i: int| 0 <= i < rows@.len() ==> #[trigger] rows@[i]@.len() == columns,
            r matches Err(e) ==> is_storage_failure(e),
    {
        let params = [text_param(id)];
        let rows = self.query(sql, &params, columns)?;
        proof {
            assert(text_is(self.queried().last().1[0], id@));
        }
        Ok(rows)
    }

    /// The accounts not archived, oldest first (then by identifier).
    pub fn list_accounts(&mut self) -> (r: CoreResult<Vec<Account>>)
        ensures
            read_from(*old(self), *final(self)),
            r is Ok ==> answered(old(self).queried(), final(self).queried(), ACCOUNT_QUERY@, seq![]),
            r matches Ok(v) ==> all_decode_account(last_rows(final(self).queried()), v@),
            r matches Ok(v) ==> forall|i: int| 0 <= i < v@.len() - 1 ==> #[trigger] accounts_ordered_at(v@, i),
            r matches Err(e) ==> is_storage_failure(e),
    {
        let params: [SqlParam; 0] = [];
        let rows = self.query(ACCOUNT_QUERY, &params, 9)?;
        let items = crate::rows::decode_accounts(&rows)?;
        let ghost q = self.queried();
        let mut k: usize = 0;
        while k < items.len()
            invariant
                k <= items@.len(),
                read_from(*old(self), *self),
                self.queried() == q,
                forall|i: int| 0 <= i < k - 1 ==> #[trigger] accounts_ordered_at(items@, i),
            decreases items@.len() - k,
        {
            if k > 0 {
                check_read(account_before(&items[k - 1], &items[k]))?;
            }
            k = k + 1;
        }
        proof {
            assert forall|i: int| 0 <= i < items@.len() implies account_row(last_rows(self.queried())[i])
                && decodes_account(last_rows(self.queried())[i], #[trigger] items@[i]) by {
                assert(last_rows(self.queried())[i] == rows@[i]@);
            }
        }
        Ok(items)
    }

    /// The projects not archived, oldest first (then by identifier).
    pub fn list_projects(&mut self) -> (r: CoreResult<Vec<Project>>)
        ensures
            read_from(*old(self), *final(self)),
            r is Ok ==> answered(old(self).queried(), final(self).queried(), PROJECT_QUERY@, seq![]),
            r matches Ok(v) ==> all_decode_project(last_rows(final(self).queried()), v@),
            r matches Ok(v) ==> forall|j: int| 0 <= j < v@.len() ==> (#[trigger] v@[j]).archived_at is None,
            r matches Ok(v) ==> forall|i: int| 0 <= i < v@.len() - 1 ==> #[trigger] projects_ordered_at(v@, i),
            r matches Err(e) ==> is_storage_failure(e),
    {
        let params: [SqlParam; 0] = [];
        let rows = self.query(PROJECT_QUERY, &params, 10)?;
        let items = crate::rows::decode_projects(&rows)?;
        let ghost q = self.queried();
        let mut k: usize = 0;
        while k < items.len()
            invariant
                k <= items@.len(),
                read_from(*old(self), *self),
                self.queried() == q,
                forall|j: int| 0 <= j < k ==> (#[trigger] items@[j]).archived_at is None,
                forall|i: int| 0 <= i < k - 1 ==> #[trigger] projects_ordered_at(items@, i),
            decreases items@.len() - k,
        {
            check_read(items[k].archived_at.is_none())?;
            if k > 0 {
                check_read(project_before(&items[k - 1], &items[k]))?;
            }
            k = k + 1;
        }
        proof {
            assert forall|i: int| 0 <= i < items@.len() implies project_row(last_rows(self.queried())[i])
                && decodes_project(last_rows(self.queried())[i], #[trigger] items@[i]) by {
                assert(last_rows(self.queried())[i] == rows@[i]@);
            }
        }
        Ok(items)
    }

    /// The projects, oldest first (then by identifier); archived ones only when asked for.
    pub fn list_projects_with_archived(&mut self, include_archived: bool) -> (r: CoreResult<Vec<Project>>)
        ensures
            read_from(*old(self), *final(self)),
            r is Ok ==> answered(old(self).queried(), final(self).queried(), (if include_archived { PROJECT_QUERY_WITH_ARCHIVED@ } else { PROJECT_QUERY@ }), seq![]),
            r matches Ok(v) ==> all_decode_project(last_rows(final(self).queried()), v@),
            r matches Ok(v) ==> forall|j: int| 0 <= j < v@.len() ==> include_archived || (#[trigger] v@[j]).archived_at is None,
            r matches Ok(v) ==> forall|i: int| 0 <= i < v@.len() - 1 ==> #[trigger] projects_ordered_at(v@, i),
            r matches Err(e) ==> is_storage_failure(e),
    {
        let params: [SqlParam; 0] = [];
        let rows = self.query(if include_archived { PROJECT_QUERY_WITH_ARCHIVED } else { PROJECT_QUERY }, &params, 10)?;
        let items = crate::rows::decode_projects(&rows)?;
        let ghost q = self.queried();
        let mut k: usize = 0;
        while k < items.len()
            invariant
                k <= items@.len(),
                read_from(*old(self), *self),
                self.queried() == q,
                forall|j: int| 0 <= j < k ==> include_archived || (#[trigger] items@[j]).archived_at is None,
                forall|i: int| 0 <= i < k - 1 ==> #[trigger] projects_ordered_at(items@, i),
            decreases items@.len() - k,
        {
            check_read(include_archived || items[k].archived_at.is_none())?;
            if k > 0 {
                check_read(project_before(&items[k - 1], &items[k]))?;
            }
            k = k + 1;
        }
        proof {
            assert forall|i: int| 0 <= i < items@.len() implies project_row(last_rows(self.queried())[i])
                && decodes_project(last_rows(self.queried())[i], #[trigger] items@[i]) by {
                assert(last_rows(self.queried())[i] == rows@[i]@);
            }
        }
        Ok(items)
    }

    /// The account with this identifier among those not archived.
    pub fn account(&mut self, account_id: &str) -> (r: CoreResult<Account>)
        ensures
            read_from(*old(self), *final(self)),
            r is Ok || (r matches Err(e) && e.code@ == "NOT_FOUND"@) ==> answered(
                old(self).queried(),
                final(self).queried(),
                ACCOUNT_QUERY@,
                seq![],
            ),
            r matches Ok(x) ==> x.account_id@ == account_id@ && exists|i: int|
                0 <= i < last_rows(final(self).queried()).len() && account_row(
                    last_rows(final(self).queried())[i],
                ) && #[trigger] decodes_account(last_rows(final(self).queried())[i], x),
            r matches Err(e) && e.code@ == "NOT_FOUND"@ ==> forall|i: int|
                0 <= i < last_rows(final(self).queried()).len() ==> text_of(
                    #[trigger] last_rows(final(self).queried())[i][0],
                ) != account_id@,
            r matches Err(e) ==> storage_or(e, "NOT_FOUND"@),
    {
        proof {
            reveal_strlit("NOT_FOUND");
            reveal_strlit("STORAGE_FAILURE");
            assert("NOT_FOUND"@[0] != "STORAGE_FAILURE"@[0]);
        }
        let items = self.list_accounts()?;
        let ghost all = items@;
        let found = find_account(items, account_id);
        proof {
            if found is Ok {
                let x = found->Ok_0;
                let i = choose|i: int| 0 <= i < all.len() && x == all[i];
                assert(decodes_account(last_rows(self.queried())[i], all[i]));
            } else {
                assert forall|i: int| 0 <= i < last_rows(self.queried()).len() implies text_of(
                    #[trigger] last_rows(self.queried())[i][0],
                ) != account_id@ by {
                    assert(decodes_account(last_rows(self.queried())[i], all[i]));
                }
            }
        }
        found
    }

    /// The project with this identifier among those not archived.
    pub fn project(&mut self, project_id: &str) -> (r: CoreResult<Project>)
        ensures
            read_from(*old(self), *final(self)),
            r is Ok || (r matches Err(e) && e.code@ == "NOT_FOUND"@) ==> answered(
                old(self).queried(),
                final(self).queried(),
                PROJECT_QUERY@,
                seq![],
            ),
            r matches Ok(x) ==> x.project_id@ == project_id@ && exists|i: int|
                0 <= i < last_rows(final(self).queried()).len() && project_row(
                    last_rows(final(self).queried())[i],
                ) && #[trigger] decodes_project(last_rows(final(self).queried())[i], x),
            r matches Err(e) && e.code@ == "NOT_FOUND"@ ==> forall|i: int|
                0 <= i < last_rows(final(self).queried()).len() ==> text_of(
                    #[trigger] last_rows(final(self).queried())[i][0],
                ) != project_id@,
            r matches Err(e) ==> storage_or(e, "NOT_FOUND"@),
    {
        proof {
            reveal_strlit("NOT_FOUND");
            reveal_strlit("STORAGE_FAILURE");
            assert("NOT_FOUND"@[0] != "STORAGE_FAILURE"@[0]);
        }
        let items = self.list_projects()?;
        let ghost all = items@;
        let found = find_project(items, project_id);
        proof {
            if found is Ok {
                let x = found->Ok_0;
                let i = choose|i: int| 0 <= i < all.len() && x == all[i];
                assert(decodes_project(last_rows(self.queried())[i], all[i]));
            } else {
                assert forall|i: int| 0 <= i < last_rows(self.queried()).len() implies text_of(
                    #[trigger] last_rows(self.queried())[i][0],
                ) != project_id@ by {
                    assert(decodes_project(last_rows(self.queried())[i], all[i]));
                }
            }
        }
        found
    }

    /// The project with this identifier, archived or not.
    pub fn project_including_archived(&mut self, project_id: &str) -> (r: CoreResult<Project>)
        ensures
            read_from(*old(self), *final(self)),
            r is Ok || (r matches Err(e) && e.code@ == "NOT_FOUND"@) ==> answered(
                old(self).queried(),
                final(self).queried(),
                PROJECT_QUERY_WITH_ARCHIVED@,
                seq![],
            ),
            r matches Ok(x) ==> x.project_id@ == project_id@ && exists|i: int|
                0 <= i < last_rows(final(self).queried()).len() && project_row(
                    last_rows(final(self).queried())[i],
                ) && #[trigger] decodes_project(last_rows(final(self).queried())[i], x),
            r matches Err(e) && e.code@ == "NOT_FOUND"@ ==> forall|i: int|
                0 <= i < last_rows(final(self).queried()).len() ==> text_of(
                    #[trigger] last_rows(final(self).queried())[i][0],
                ) != project_id@,
            r matches Err(e) ==> storage_or(e, "NOT_FOUND"@),
    {
        proof {
            reveal_strlit("NOT_FOUND");
            reveal_strlit("STORAGE_FAILURE");
            assert("NOT_FOUND"@[0] != "STORAGE_FAILURE"@[0]);
        }
        let items = self.list_projects_with_archived(true)?;
        let ghost all = items@;
        let found = find_project(items, project_id);
        proof {
            if found is Ok {
                let x = found->Ok_0;
                let i = choose|i: int| 0 <= i < all.len() && x == all[i];
                assert(decodes_project(last_rows(self.queried())[i], all[i]));
            } else {
                assert forall|i: int| 0 <= i < last_rows(self.queried()).len() implies text_of(
                    #[trigger] last_rows(self.queried())[i][0],
                ) != project_id@ by {
                    assert(decodes_project(last_rows(self.queried())[i], all[i]));
                }
            }
        }
        found
    }

    /// The launch transaction with this identifier.
    pub fn transaction(&mut self, transaction_id: &str) -> (r: CoreResult<LaunchTransaction>)
        ensures
            read_from(*old(self), *final(self)),
            r is Ok || (r matches Err(e) && e.code@ == "NOT_FOUND"@) ==> answered(
                old(self).queried(),
                final(self).queried(),
                TRANSACTION_QUERY@,
                seq![transaction_id@],
            ),
            r matches Ok(t) ==> t.transaction_id@ == transaction_id@ && last_rows(final(self).queried()).len() > 0
                && transaction_row(last_rows(final(self).queried())[0]) && decodes_transaction(
                last_rows(final(self).queried())[0],
                t,
            ),
            r matches Err(e) && e.code@ == "NOT_FOUND"@ ==> last_rows(final(self).queried()).len() == 0,
            r matches Err(e) ==> storage_or(e, "NOT_FOUND"@),
    {
        proof {
            reveal_strlit("NOT_FOUND");
            reveal_strlit("STORAGE_FAILURE");
            assert("NOT_FOUND"@[0] != "STORAGE_FAILURE"@[0]);
        }
        let rows = self.query_by_id(TRANSACTION_QUERY, transaction_id, 22)?;
        if rows.len() == 0 {
            return Err(CoreError::new("NOT_FOUND", "launch transaction was not found"));
        }
        let item = crate::rows::decode_transaction(&rows[0])?;
        check_read(str_eq(item.transaction_id.as_str(), transaction_id))?;
        Ok(item)
    }

    /// The transaction of the launch with this identifier.
    pub fn transaction_for_launch(&mut self, launch_id: &str) -> (r: CoreResult<LaunchTransaction>)
        ensures
            read_from(*old(self), *final(self)),
            r matches Ok(t) ==> t.launch_id@ == launch_id@ && final(self).queried().len() == old(
                self,
            ).queried().len() + 2 && asked_with(
                final(self).queried()[old(self).queried().len() as int],
                LAUNCH_TRANSACTION_QUERY@,
                seq![launch_id@],
            ) && final(self).queried()[old(self).queried().len() as int].2.len() > 0 && text_of(
                final(self).queried()[old(self).queried().len() as int].2[0][0],
            ) == t.transaction_id@ && asked_with(
                final(self).queried().last(),
                TRANSACTION_QUERY@,
                seq![t.transaction_id@],
            ) && last_rows(final(self).queried()).len() > 0 && transaction_row(
                last_rows(final(self).queried())[0],
            ) && decodes_transaction(last_rows(final(self).queried())[0], t),
            r matches Err(e) ==> storage_or(e, "NOT_FOUND"@),
    {
        let rows = self.query_by_id(LAUNCH_TRANSACTION_QUERY, launch_id, 1)?;
        if rows.len() == 0 {
            return Err(CoreError::new("NOT_FOUND", "launch was not found"));
        }
        let transaction_id = crate::rows::text_cell(&rows[0], 0)?;
        let ghost first = self.queried().last();
        let transaction = self.transaction(transaction_id.as_str())?;
        check_read(str_eq(transaction.launch_id.as_str(), launch_id))?;
        proof {
            assert(self.queried()[old(self).queried().len() as int] == first);
        }
        Ok(transaction)
    }

    /// The launch with this identifier.
    pub fn launch_view(&mut self, launch_id: &str) -> (r: CoreResult<LaunchView>)
        ensures
            read_from(*old(self), *final(self)),
            r is Ok || (r matches Err(e) && e.code@ == "NOT_FOUND"@) ==> answered(
                old(self).queried(),
                final(self).queried(),
                LAUNCH_QUERY@,
                seq![],
            ),
            r matches Ok(x) ==> x.launch_id@ == launch_id@ && exists|i: int|
                0 <= i < last_rows(final(self).queried()).len() && launch_row(
                    last_rows(final(self).queried())[i],
                ) && #[trigger] decodes_launch(last_rows(final(self).queried())[i], x),
            r matches Err(e) && e.code@ == "NOT_FOUND"@ ==> forall|i: int|
                0 <= i < last_rows(final(self).queried()).len() ==> text_of(
                    #[trigger] last_rows(final(self).queried())[i][0],
                ) != launch_id@,
            r matches Err(e) ==> storage_or(e, "NOT_FOUND"@),
    {
        proof {
            reveal_strlit("NOT_FOUND");
            reveal_strlit("STORAGE_FAILURE");
            assert("NOT_FOUND"@[0] != "STORAGE_FAILURE"@[0]);
        }
        let items = self.list_launches()?;
        let ghost all = items@;
        let found = find_launch(items, launch_id);
        proof {
            if found is Ok {
                let x = found->Ok_0;
                let i = choose|i: int| 0 <= i < all.len() && x == all[i];
                assert(decodes_launch(last_rows(self.queried())[i], all[i]));
            } else {
                assert forall|i: int| 0 <= i < last_rows(self.queried()).len() implies text_of(
                    #[trigger] last_rows(self.queried())[i][0],
                ) != launch_id@ by {
                    assert(decodes_launch(last_rows(self.queried())[i], all[i]));
                }
            }
        }
        found
    }

    /// The transactions not yet in a terminal state, oldest first.
    pub fn list_nonterminal_transactions(&mut self) -> (r: CoreResult<Vec<LaunchTransaction>>)
        ensures
            read_from(*old(self), *final(self)),
            r is Ok ==> answered(old(self).queried(), final(self).queried(), NONTERMINAL_TRANSACTIONS_QUERY@, seq![]),
            r matches Ok(v) ==> all_decode_transaction(last_rows(final(self).queried()), v@),
            r matches Ok(v) ==> forall|j: int| 0 <= j < v@.len() ==> !(#[trigger] v@[j]).state.is_terminal(),
            r matches Ok(v) ==> forall|i: int| 0 <= i < v@.len() - 1 ==> #[trigger] transactions_ordered_at(v@, i),
            r matches Err(e) ==> is_storage_failure(e),
    {
        let params: [SqlParam; 0] = [];
        let rows = self.query(NONTERMINAL_TRANSACTIONS_QUERY, &params, 22)?;
        let items = crate::rows::decode_transactions(&rows)?;
        let ghost q = self.queried();
        let mut k: usize = 0;
        while k < items.len()
            invariant
                k <= items@.len(),
                read_from(*old(self), *self),
                self.queried() == q,
                forall|j: int| 0 <= j < k ==> !(#[trigger] items@[j]).state.is_terminal(),
                forall|i: int| 0 <= i < k - 1 ==> #[trigger] transactions_ordered_at(items@, i),
            decreases items@.len() - k,
        {
            check_read(!items[k].state.terminal())?;
            if k > 0 {
                check_read(transaction_before(&items[k - 1], &items[k]))?;
            }
            k = k + 1;
        }
        proof {
            assert forall|i: int| 0 <= i < items@.len() implies transaction_row(last_rows(self.queried())[i])
                && decodes_transaction(last_rows(self.queried())[i], #[trigger] items@[i]) by {
                assert(last_rows(self.queried())[i] == rows@[i]@);
            }
        }
        Ok(items)
    }

    /// Every launch, newest first.
    pub fn list_launches(&mut self) -> (r: CoreResult<Vec<LaunchView>>)
        ensures
            read_from(*old(self), *final(self)),
            r is Ok ==> answered(old(self).queried(), final(self).queried(), LAUNCH_QUERY@, seq![]),
            r matches Ok(v) ==> all_decode_launch(last_rows(final(self).queried()), v@),
            r matches Ok(v) ==> forall|i: int| 0 <= i < v@.len() - 1 ==> #[trigger] launches_ordered_at(v@, i),
            r matches Err(e) ==> is_storage_failure(e),
    {
        let params: [SqlParam; 0] = [];
        let rows = self.query(LAUNCH_QUERY, &params, 8)?;
        let items = crate::rows::decode_launches(&rows)?;
        let ghost q = self.queried();
        let mut k: usize = 0;
        while k < items.len()
            invariant
                k <= items@.len(),
                read_from(*old(self), *self),
                self.queried() == q,
                forall|i: int| 0 <= i < k - 1 ==> #[trigger] launches_ordered_at(items@, i),
            decreases items@.len() - k,
        {
            if k > 0 {
                check_read(launch_before(&items[k - 1], &items[k]))?;
            }
            k = k + 1;
        }
        proof {
            assert forall|i: int| 0 <= i < items@.len() implies launch_row(last_rows(self.queried())[i])
                && decodes_launch(last_rows(self.queried())[i], #[trigger] items@[i]) by {
                assert(last_rows(self.queried())[i] == rows@[i]@);
            }
        }
        Ok(items)
    }

    /// Whether a launch of the project has an open recovery incident.
    pub fn has_open_incident(&mut self, project_id: &str) -> (r: CoreResult<bool>)
        ensures
            read_from(*old(self), *final(self)),
            r is Ok ==> answered(old(self).queried(), final(self).queried(), OPEN_INCIDENT_PROBE@, seq![project_id@]),
            r matches Ok(b) ==> b == (last_rows(final(self).queried()).len() > 0),
            r matches Ok(b) ==> b ==> is_open_incident_row(last_rows(final(self).queried())[0], project_id@),
            r matches Err(e) ==> is_storage_failure(e),
    {
        let rows = self.query_by_id(OPEN_INCIDENT_PROBE, project_id, 2)?;
        if rows.len() == 0 {
            return Ok(false);
        }
        let owner = crate::rows::text_cell(&rows[0], 0)?;
        let status = crate::rows::text_cell(&rows[0], 1)?;
        check_read(str_eq(owner.as_str(), project_id) && str_eq(status.as_str(), "open"))?;
        assert(is_open_incident_row(last_rows(self.queried())[0], project_id@));
        Ok(true)
    }

    /// The recovery incident with this identifier.
    pub fn incident(&mut self, incident_id: &str) -> (r: CoreResult<RecoveryIncident>)
        ensures
            read_from(*old(self), *final(self)),
            r is Ok || (r matches Err(e) && e.code@ == "NOT_FOUND"@) ==> answered(
                old(self).queried(),
                final(self).queried(),
                INCIDENT_QUERY@,
                seq![incident_id@],
            ),
            r matches Ok(t) ==> t.incident_id@ == incident_id@ && last_rows(final(self).queried()).len() > 0
                && incident_row(last_rows(final(self).queried())[0]) && decodes_incident(
                last_rows(final(self).queried())[0],
                t,
            ),
            r matches Err(e) && e.code@ == "NOT_FOUND"@ ==> last_rows(final(self).queried()).len() == 0,
            r matches Err(e) ==> storage_or(e, "NOT_FOUND"@),
    {
        proof {
            reveal_strlit("NOT_FOUND");
            reveal_strlit("STORAGE_FAILURE");
            assert("NOT_FOUND"@[0] != "STORAGE_FAILURE"@[0]);
        }
        let rows = self.query_by_id(INCIDENT_QUERY, incident_id, 12)?;
        if rows.len() == 0 {
            return Err(CoreError::new("NOT_FOUND", "recovery incident was not found"));
        }
        let item = crate::rows::decode_incident(&rows[0])?;
        check_read(str_eq(item.incident_id.as_str(), incident_id))?;
        Ok(item)
    }

    /// The open incidents, or all of them, oldest first (then by identifier).
    pub fn list_incidents(&mut self, include_resolved: bool) -> (r: CoreResult<Vec<RecoveryIncident>>)
        ensures
            read_from(*old(self), *final(self)),
            r is Ok ==> answered(old(self).queried(), final(self).queried(), (if include_resolved { ALL_INCIDENTS_QUERY@ } else { OPEN_INCIDENTS_QUERY@ }), seq![]),
            r matches Ok(v) ==> all_decode_incident(last_rows(final(self).queried()), v@),
            r matches Ok(v) ==> forall|j: int| 0 <= j < v@.len() ==> include_resolved || (#[trigger] v@[j]).status@ == "open"@,
            r matches Ok(v) ==> forall|i: int| 0 <= i < v@.len() - 1 ==> #[trigger] incidents_ordered_at(v@, i),
            r matches Err(e) ==> is_storage_failure(e),
    {
        let params: [SqlParam; 0] = [];
        let rows = self.query(if include_resolved { ALL_INCIDENTS_QUERY } else { OPEN_INCIDENTS_QUERY }, &params, 12)?;
        let items = crate::rows::decode_incidents(&rows)?;
        let ghost q = self.queried();
        let mut k: usize = 0;
        while k < items.len()
            invariant
                k <= items@.len(),
                read_from(*old(self), *self),
                self.queried() == q,
                forall|j: int| 0 <= j < k ==> include_resolved || (#[trigger] items@[j]).status@ == "open"@,
                forall|i: int| 0 <= i < k - 1 ==> #[trigger] incidents_ordered_at(items@, i),
            decreases items@.len() - k,
        {
            check_read(include_resolved || str_eq(items[k].status.as_str(), "open"))?;
            if k > 0 {
                check_read(incident_before(&items[k - 1], &items[k]))?;
            }
            k = k + 1;
        }
        proof {
            assert forall|i: int| 0 <= i < items@.len() implies incident_row(last_rows(self.queried())[i])
                && decodes_incident(last_rows(self.queried())[i], #[trigger] items@[i]) by {
                assert(last_rows(self.queried())[i] == rows@[i]@);
            }
        }
        Ok(items)
    }

    /// The attempts recorded on an incident, oldest first (then by identifier).
    pub fn list_recovery_attempts(&mut self, incident_id: &str) -> (r: CoreResult<Vec<RecoveryAttempt>>)
        ensures
            read_from(*old(self), *final(self)),
            r is Ok ==> answered(old(self).queried(), final(self).queried(), ATTEMPTS_QUERY@, seq![incident_id@]),
            r matches Ok(v) ==> all_decode_attempt(last_rows(final(self).queried()), v@),
            r matches Ok(v) ==> forall|j: int| 0 <= j < v@.len() ==> (#[trigger] v@[j]).incident_id@ == incident_id@,
            r matches Ok(v) ==> forall|i: int| 0 <= i < v@.len() - 1 ==> #[trigger] attempts_ordered_at(v@, i),
            r matches Err(e) ==> is_storage_failure(e),
    {
        let params = [text_param(incident_id)];
        let rows = self.query(ATTEMPTS_QUERY, &params, 9)?;
        let items = crate::rows::decode_attempts(&rows)?;
        let ghost q = self.queried();
        let mut k: usize = 0;
        while k < items.len()
            invariant
                k <= items@.len(),
                read_from(*old(self), *self),
                self.queried() == q,
                forall|j: int| 0 <= j < k ==> (#[trigger] items@[j]).incident_id@ == incident_id@,
                forall|i: int| 0 <= i < k - 1 ==> #[trigger] attempts_ordered_at(items@, i),
            decreases items@.len() - k,
        {
            check_read(str_eq(items[k].incident_id.as_str(), incident_id))?;
            if k > 0 {
                check_read(attempt_before(&items[k - 1], &items[k]))?;
            }
            k = k + 1;
        }
        proof {
            assert forall|i: int| 0 <= i < items@.len() implies attempt_row(last_rows(self.queried())[i])
                && decodes_attempt(last_rows(self.queried())[i], #[trigger] items@[i]) by {
                assert(last_rows(self.queried())[i] == rows@[i]@);
            }
        }
        Ok(items)
    }

    /// How many recovery runs were begun and never completed.
    pub fn incomplete_recovery_runs(&mut self) -> (r: CoreResult<u64>)
        ensures
            read_from(*old(self), *final(self)),
            r is Ok ==> answered(old(self).queried(), final(self).queried(), RUNNING_RUNS_QUERY@, seq![]),
            r matches Ok(n) ==> n == last_rows(final(self).queried()).len() && forall|i: int|
                0 <= i < n ==> #[trigger] is_running_run_row(last_rows(final(self).queried())[i]),
            r matches Err(e) ==> is_storage_failure(e),
    {
        let params: [SqlParam; 0] = [];
        let rows = self.query(RUNNING_RUNS_QUERY, &params, 2)?;
        let ghost q = self.queried();
        let mut k: usize = 0;
        while k < rows.len()
            invariant
                k <= rows@.len(),
                read_from(*old(self), *self),
                self.queried() == q,
                forall|i: int| 0 <= i < rows@.len() ==> #[trigger] rows@[i]@.len() == 2,
                forall|i: int| 0 <= i < k ==> #[trigger] is_running_run_row(rows@[i]@),
            decreases rows@.len() - k,
        {
            let status = crate::rows::text_cell(&rows[k], 1)?;
            check_read(str_eq(status.as_str(), "running"))?;
            assert(is_running_run_row(rows@[k as int]@));
            k = k + 1;
        }
        assert(forall|i: int| 0 <= i < rows@.len() ==> #[trigger] last_rows(self.queried())[i] == rows@[i]@);
        Ok(rows.len() as u64)
    }

    /// The project's terminals in their order.
    pub fn list_terminals(&mut self, project_id: &str) -> (r: CoreResult<Vec<Terminal>>)
        ensures
            read_from(*old(self), *final(self)),
            r is Ok ==> answered(old(self).queried(), final(self).queried(), TERMINALS_QUERY@, seq![project_id@]),
            r matches Ok(v) ==> all_decode_terminal(last_rows(final(self).queried()), v@),
            r matches Ok(v) ==> forall|j: int| 0 <= j < v@.len() ==> (#[trigger] v@[j]).project_id@ == project_id@,
            r is Ok ==> forall|i: int|
                0 <= i < last_rows(final(self).queried()).len() - 1 ==> #[trigger] ordinals_ordered_at(
                    last_rows(final(self).queried()),
                    i,
                ),
            r matches Err(e) ==> is_storage_failure(e),
    {
        let rows = self.query_by_id(TERMINALS_QUERY, project_id, 9)?;
        let items = crate::rows::decode_terminals(&rows)?;
        let ghost q = self.queried();
        let mut k: usize = 0;
        while k < items.len()
            invariant
                k <= items@.len(),
                read_from(*old(self), *self),
                self.queried() == q,
                items@.len() == rows@.len(),
                forall|i: int| 0 <= i < rows@.len() ==> #[trigger] rows@[i]@.len() == 9,
                forall|i: int| 0 <= i < rows@.len() ==> terminal_row(#[trigger] rows@[i]@),
                forall|j: int| 0 <= j < k ==> (#[trigger] items@[j]).project_id@ == project_id@,
                forall|i: int| 0 <= i < k - 1 ==> #[trigger] ordinals_ordered_at(crate::rows::rows_view(rows@), i),
            decreases items@.len() - k,
        {
            check_read(str_eq(items[k].project_id.as_str(), project_id))?;
            if k > 0 {
                let earlier = crate::rows::int_cell(&rows[k - 1], 8)?;
                let later = crate::rows::int_cell(&rows[k], 8)?;
                check_read(earlier <= later)?;
                assert(ordinals_ordered_at(crate::rows::rows_view(rows@), k - 1));
            }
            k = k + 1;
        }
        proof {
            assert forall|i: int| 0 <= i < items@.len() implies terminal_row(last_rows(self.queried())[i])
                && decodes_terminal(last_rows(self.queried())[i], #[trigger] items@[i]) by {
                assert(last_rows(self.queried())[i] == rows@[i]@);
            }
        }
        Ok(items)
    }

    /// The terminal with this identifier.
    pub fn terminal(&mut self, terminal_id: &str) -> (r: CoreResult<Terminal>)
        ensures
            read_from(*old(self), *final(self)),
            r is Ok || (r matches Err(e) && e.code@ == "NOT_FOUND"@) ==> answered(
                old(self).queried(),
                final(self).queried(),
                TERMINAL_QUERY@,
                seq![terminal_id@],
            ),
            r matches Ok(t) ==> t.terminal_id@ == terminal_id@ && last_rows(final(self).queried()).len() > 0
                && terminal_row(last_rows(final(self).queried())[0]) && decodes_terminal(
                last_rows(final(self).queried())[0],
                t,
            ),
            r matches Err(e) && e.code@ == "NOT_FOUND"@ ==> last_rows(final(self).queried()).len() == 0,
            r matches Err(e) ==> storage_or(e, "NOT_FOUND"@),
    {
        proof {
            reveal_strlit("NOT_FOUND");
            reveal_strlit("STORAGE_FAILURE");
            assert("NOT_FOUND"@[0] != "STORAGE_FAILURE"@[0]);
        }
        let rows = self.query_by_id(TERMINAL_QUERY, terminal_id, 8)?;
        if rows.len() == 0 {
            return Err(CoreError::new("NOT_FOUND", "Terminal was not found"));
        }
        let item = crate::rows::decode_terminal(&rows[0])?;
        check_read(str_eq(item.terminal_id.as_str(), terminal_id))?;
        Ok(item)
    }

    /// The project's indexed threads, most recently modified first (then by identifier).
    pub fn list_thread_indexes(&mut self, project_id: &str) -> (r: CoreResult<Vec<ThreadIndex>>)
        ensures
            read_from(*old(self), *final(self)),
            r is Ok ==> answered(old(self).queried(), final(self).queried(), THREADS_QUERY@, seq![project_id@]),
            r matches Ok(v) ==> all_decode_thread(last_rows(final(self).queried()), v@),
            r matches Ok(v) ==> forall|j: int| 0 <= j < v@.len() ==> (#[trigger] v@[j]).project_id@ == project_id@,
            r matches Ok(v) ==> forall|i: int| 0 <= i < v@.len() - 1 ==> #[trigger] threads_ordered_at(v@, i),
            r matches Err(e) ==> is_storage_failure(e),
    {
        let params = [text_param(project_id)];
        let rows = self.query(THREADS_QUERY, &params, 7)?;
        let items = crate::rows::decode_threads(&rows)?;
        let ghost q = self.queried();
        let mut k: usize = 0;
        while k < items.len()
            invariant
                k <= items@.len(),
                read_from(*old(self), *self),
                self.queried() == q,
                forall|j: int| 0 <= j < k ==> (#[trigger] items@[j]).project_id@ == project_id@,
                forall|i: int| 0 <= i < k - 1 ==> #[trigger] threads_ordered_at(items@, i),
            decreases items@.len() - k,
        {
            check_read(str_eq(items[k].project_id.as_str(), project_id))?;
            if k > 0 {
                check_read(thread_before(&items[k - 1], &items[k]))?;
            }
            k = k + 1;
        }
        proof {
            assert forall|i: int| 0 <= i < items@.len() implies thread_row(last_rows(self.queried())[i])
                && decodes_thread(last_rows(self.queried())[i], #[trigger] items@[i]) by {
                assert(last_rows(self.queried())[i] == rows@[i]@);
            }
        }
        Ok(items)
    }

    /// The encoded latest usage snapshot of an account, if one was cached.
    pub fn latest_usage(&mut self, account_id: &str) -> (r: CoreResult<Option<String>>)
        ensures
            read_from(*old(self), *final(self)),
            r is Ok ==> answered(old(self).queried(), final(self).queried(), LATEST_USAGE_QUERY@, seq![account_id@]),
            r matches Ok(o) ==> (o is None <==> last_rows(final(self).queried()).len() == 0),
            r matches Ok(Some(text)) ==> is_usage_row(last_rows(final(self).queried())[0], account_id@, text@),
            r matches Err(e) ==> is_storage_failure(e),
    {
        let rows = self.query_by_id(LATEST_USAGE_QUERY, account_id, 2)?;
        if rows.len() == 0 {
            return Ok(None);
        }
        let owner = crate::rows::text_cell(&rows[0], 0)?;
        let text = crate::rows::text_cell(&rows[0], 1)?;
        check_read(str_eq(owner.as_str(), account_id))?;
        let ghost row = rows@[0]@;
        assert(is_usage_row(row, account_id@, text@));
        let found = Some(text);
        assert(found matches Some(t) && is_usage_row(row, account_id@, t@));
        Ok(found)
    }

    fn count_rows(&mut self, sql: &str) -> (r: CoreResult<u64>)
        ensures
            read_from(*old(self), *final(self)),
            r is Ok ==> answered(old(self).queried(), final(self).queried(), sql@, seq![]) && is_count(
                final(self).queried().last(),
                sql@,
                r->Ok_0,
            ),
            r matches Err(e) ==> is_storage_failure(e),
    {
        let params: [SqlParam; 0] = [];
        let rows = self.query(sql, &params, 1)?;
        Ok(clamp_count(read_single_integer(&rows)?))
    }

    /// The numbers of accounts, projects, launches and recovery incidents.
    pub fn counts(&mut self) -> (r: CoreResult<(u64, u64, u64, u64)>)
        ensures
            read_from(*old(self), *final(self)),
            r matches Ok(c) ==> final(self).queried().len() == old(self).queried().len() + 4
                && is_count(final(self).queried()[old(self).queried().len() as int], ACCOUNT_COUNT@, c.0)
                && is_count(final(self).queried()[old(self).queried().len() as int + 1], PROJECT_COUNT@, c.1)
                && is_count(final(self).queried()[old(self).queried().len() as int + 2], LAUNCH_COUNT@, c.2)
                && is_count(final(self).queried()[old(self).queried().len() as int + 3], INCIDENT_COUNT@, c.3),
            r matches Err(e) ==> is_storage_failure(e),
    {
        let ghost o = self.queried().len() as int;
        let accounts = self.count_rows(ACCOUNT_COUNT)?;
        let ghost q1 = self.queried();
        let projects = self.count_rows(PROJECT_COUNT)?;
        let ghost q2 = self.queried();
        let launches = self.count_rows(LAUNCH_COUNT)?;
        let ghost q3 = self.queried();
        let incidents = self.count_rows(INCIDENT_COUNT)?;
        proof {
            assert(self.queried()[o] == q1[o]);
            assert(self.queried()[o + 1] == q2[o + 1]);
            assert(self.queried()[o + 2] == q3[o + 2]);
        }
        Ok((accounts, projects, launches, incidents))
    }
}

// ---------------------------------------------------------------------------
// Time and fresh identifiers.

/// `SystemTime::now` measured from the Unix epoch, in whole seconds; a clock
/// set before the epoch reads as zero. Nothing is claimed of the value.
#[verifier::external_body]
fn seconds_since_epoch() -> u64 {
    std::time::SystemTime::now().duration_since(std::time::UNIX_EPOCH).unwrap_or_default().as_secs()
}

/// The current Unix time in seconds, saturated to `i64`.
pub fn now() -> (r: i64)
    ensures
        r >= 0,
{
    let seconds = seconds_since_epoch();
    if seconds > 9223372036854775807u64 {
        9223372036854775807i64
    } else {
        seconds as i64
    }
}

/// A lowercase hexadecimal digit.
pub open spec fn is_lower_hex(c: char) -> bool {
    ('0' <= c && c <= '9') || ('a' <= c && c <= 'f')
}

/// `Uuid::new_v4().simple()`, displayed: a random version 4 UUID as 32
/// lowercase hexadecimal digits with no hyphens (uuid's `Simple` format
/// writes `Simple::LENGTH` = 32 digits through `encode_lower`). Which digits
/// come is chance and is not claimed.
#[verifier::external_body]
fn random_uuid_simple() -> (r: String)
    ensures
        r@.len() == 32,
        forall|i: int| 0 <= i < 32 ==> is_lower_hex(#[trigger] r@[i]),
{
    format!("{}", uuid::Uuid::new_v4().simple())
}

/// The shape of a fresh identifier: the prefix, `_`, and 32 lowercase hex
/// digits.
pub open spec fn is_fresh_id(prefix: Seq<char>, id: Seq<char>) -> bool {
    &&& id.len() == prefix.len() + 33
    &&& id.take(prefix.len() + 1int) == prefix + "_"@
    &&& forall|i: int| prefix.len() + 1 <= i < id.len() ==> is_lower_hex(#[trigger] id[i])
}

/// A fresh identifier: the prefix, `_`, and 32 random lowercase hex digits.
pub fn fresh_id(prefix: &str) -> (r: String)
    ensures
        r@.len() == prefix@.len() + 33,
        r@.take(prefix@.len() + 1int) == prefix@ + "_"@,
        forall|i: int| prefix@.len() + 1 <= i < r@.len() ==> is_lower_hex(#[trigger] r@[i]),
{
    let digits = random_uuid_simple();
    let mut id = String::from_str(prefix);
    id.append("_");
    id.append(digits.as_str());
    proof {
        reveal_strlit("_");
        assert(id@ =~= prefix@ + "_"@ + digits@);
        assert(id@.take(prefix@.len() + 1int) =~= prefix@ + "_"@);
        assert forall|i: int| prefix@.len() + 1 <= i < id@.len() implies is_lower_hex(#[trigger] id@[i]) by {
            assert(id@[i] == digits@[i - prefix@.len() - 1]);
        }
    }
    id
}

// ---------------------------------------------------------------------------
// Decisions over what was read.

/// Whether a stored launch state may move to `next`.
pub fn check_transition(current: TransactionState, next: TransactionState) -> (r: CoreResult<()>)
    ensures
        r is Ok <==> current.allows(next),
        r matches Err(e) ==> e.code@ == "INVALID_STATE"@,
{
    if !current.permits(next) {
        return Err(CoreError::new("INVALID_STATE", "launch state transition is not allowed"));
    }
    Ok(())
}

/// How a claim on an operation identifier stands.
#[derive(Debug, Clone, PartialEq, Eq)]
pub enum OperationClaim {
    /// The identifier was free and is now claimed by this request.
    New,
    /// The identifier was claimed for the same request, which has not finished.
    InProgress,
    /// The same request already finished with this encoded response.
    Completed(String),
}

/// A stored operation: `method, request_hash, response_json`.
pub open spec fn operation_row(row: Seq<Cell>) -> bool {
    row.len() == 3 && is_text(row[0]) && is_text(row[1]) && is_opt_text(row[2])
}

/// The claim that a stored operation gives a request: a different method or
/// request hash under the same identifier is a conflict; otherwise the
/// stored response, or none yet.
pub fn existing_claim(row: &Vec<Cell>, method: &str, request_hash: &str) -> (r: CoreResult<
    OperationClaim,
>)
    ensures
        r is Ok <==> operation_row(row@) && text_of(row@[0]) == method@ && text_of(row@[1])
            == request_hash@,
        r matches Ok(c) ==> match opt_text_of(row@[2]) {
            Some(response) => c matches OperationClaim::Completed(x) && x@ == response,
            None => c is InProgress,
        },
        r matches Err(e) ==> if operation_row(row@) {
            e.code@ == "CONFLICT"@
        } else {
            is_storage_failure(e)
        },
{
    if row.len() != 3 {
        return Err(CoreError::new("STORAGE_FAILURE", "a durable storage operation failed"));
    }
    let existing_method = crate::rows::text_cell(row, 0)?;
    let existing_hash = crate::rows::text_cell(row, 1)?;
    let response = crate::rows::opt_text_cell(row, 2)?;
    if !str_eq(existing_method.as_str(), method) || !str_eq(existing_hash.as_str(), request_hash) {
        return Err(
            CoreError::new("CONFLICT", "operation identifier was reused with different semantics"),
        );
    }
    match response {
        Some(value) => Ok(OperationClaim::Completed(value)),
        None => Ok(OperationClaim::InProgress),
    }
}

/// An operation's completion must change exactly its one unfinished row.
pub fn check_unique_completion(changed: usize) -> (r: CoreResult<()>)
    ensures
        r is Ok <==> changed == 1,
        r matches Err(e) ==> e.code@ == "CONFLICT"@,
{
    if changed == 1 {
        Ok(())
    } else {
        Err(CoreError::new("CONFLICT", "operation completion was not unique"))
    }
}

/// An update keyed by identifier that changed nothing found no such row.
pub fn check_found(changed: usize, message: &str) -> (r: CoreResult<()>)
    ensures
        r is Ok <==> changed > 0,
        r matches Err(e) ==> e.code@ == "NOT_FOUND"@ && e.message@ == message@,
{
    if changed == 0 {
        return Err(CoreError::new("NOT_FOUND", message));
    }
    Ok(())
}

/// Resolving an incident must either close it now or find it already
/// resolved.
pub fn check_resolution(changed: usize, status: &str) -> (r: CoreResult<()>)
    ensures
        r is Ok <==> changed != 0 || status@ == "resolved"@,
        r matches Err(e) ==> e.code@ == "INVALID_STATE"@,
{
    if changed == 0 && !str_eq(status, "resolved") {
        return Err(CoreError::new("INVALID_STATE", "incident cannot be resolved"));
    }
    Ok(())
}

/// A recovery run's stored status: failed when it ended with an error code.
pub fn run_status(error_code: Option<&str>) -> (r: &'static str)
    ensures
        error_code is Some ==> r@ == "failed"@,
        error_code is None ==> r@ == "completed"@,
{
    if error_code.is_some() {
        "failed"
    } else {
        "completed"
    }
}

/// The statements issued before are still there, in order, at the start of
/// those issued after.
pub open spec fn grown(before: Seq<(Seq<char>, Seq<SqlParam>)>, after: Seq<(Seq<char>, Seq<SqlParam>)>) -> bool {
    before.len() <= after.len() && forall|i: int| 0 <= i < before.len() ==> #[trigger] after[i] == before[i]
}

/// A text parameter holding `s`.
pub open spec fn text_is(p: SqlParam, s: Seq<char>) -> bool {
    p matches SqlParam::Text(t) && t@ == s
}

/// A text parameter holding `s`, or `NULL` for none.
pub open spec fn opt_text_is(p: SqlParam, s: Option<Seq<char>>) -> bool {
    match s {
        Some(v) => text_is(p, v),
        None => p is Null,
    }
}

/// An integer parameter holding `v`.
pub open spec fn int_is(p: SqlParam, v: i64) -> bool {
    p == SqlParam::Integer(v)
}

/// An integer parameter (a time stamp taken when the statement was built).
pub open spec fn is_int_param(p: SqlParam) -> bool {
    p is Integer
}

/// The text of an optional string slice.
pub open spec fn opt_str_view(o: Option<&str>) -> Option<Seq<char>> {
    match o {
        Some(s) => Some(s@),
        None => None,
    }
}

pub const ACCOUNT_INSERT: &'static str = "INSERT INTO accounts(account_id,display_name,masked_email,plan_type,login_status,credential_hash,vault_relative_path,created_at,updated_at) VALUES(?,?,?,?,?,?,?,?,?)";

pub const ACCOUNT_UPDATE: &'static str = "UPDATE accounts SET masked_email=COALESCE(?,masked_email),plan_type=COALESCE(?,plan_type),login_status=?,credential_hash=COALESCE(?,credential_hash),updated_at=? WHERE account_id=?";

pub const PROJECT_INSERT: &'static str = "INSERT INTO projects(project_id,name,canonical_windows_path,canonical_wsl_path,runtime_relative_path,tmux_session_name,created_at,updated_at) VALUES(?,?,?,?,?,?,?,?)";

pub const PROJECT_ARCHIVE: &'static str = "UPDATE projects SET archived_at=COALESCE(archived_at,?),updated_at=? WHERE project_id=?";

pub const LAUNCH_INSERT: &'static str = "INSERT INTO launches(launch_id,transaction_id,project_id,account_id,started_at) VALUES(?,?,?,?,?)";

pub const TRANSACTION_INSERT: &'static str = "INSERT INTO launch_transactions(transaction_id,launch_id,project_id,account_id,state,created_at,updated_at,schema_version) VALUES(?,?,?,?,?,?,?,1)";

pub const TRANSITION_UPDATE: &'static str = "UPDATE launch_transactions SET state=?,updated_at=? WHERE transaction_id=? AND state=?";

pub const CHECKOUT_UPDATE: &'static str = "UPDATE launch_transactions SET vault_hash_before_checkout=?,runtime_hash_at_checkout=?,updated_at=? WHERE transaction_id=?";

pub const PROCESSES_UPDATE: &'static str = "UPDATE launch_transactions SET runner_pid=?,codex_pid=?,boot_id=?,runner_start_ticks=?,codex_start_ticks=?,runner_identity=?,codex_identity=?,updated_at=? WHERE transaction_id=?";

pub const RECOVERY_HASHES_UPDATE: &'static str = "UPDATE launch_transactions SET vault_hash_at_recovery=?,runtime_hash_at_recovery=?,recovery_attempts=recovery_attempts+1,updated_at=? WHERE transaction_id=?";

pub const BACKUP_UPDATE: &'static str = "UPDATE launch_transactions SET credential_backup_reference=?,updated_at=? WHERE transaction_id=?";

pub const FAILURE_UPDATE: &'static str = "UPDATE launch_transactions SET state='failed',last_error_code=?,last_error_message_redacted=?,updated_at=? WHERE transaction_id=?";

pub const LAUNCH_FINISH: &'static str = "UPDATE launches SET outcome=?,exited_at=? WHERE transaction_id=?";

pub const INCIDENT_INSERT: &'static str = "INSERT INTO recovery_incidents(incident_id,transaction_id,kind,status,evidence_relative_path,created_at,updated_at) VALUES(?, ?, ?, 'open', ?, ?, ?)";

pub const RESOLUTION_ATTEMPT_INSERT: &'static str = "INSERT INTO recovery_attempts(attempt_id,incident_id,transaction_id,classification,result_state,error_code,action,created_at) VALUES(?,?,?,'manual_resolution','running',NULL,?,?)";

pub const ATTEMPT_COMPLETE: &'static str = "UPDATE recovery_attempts SET result_state=?,error_code=?,completed_at=? WHERE attempt_id=?";

pub const INCIDENT_RESOLVE: &'static str = "UPDATE recovery_incidents SET status='resolved',resolution_action=?,resolution_summary=?,resolved_at=?,updated_at=? WHERE incident_id=? AND status='open'";

pub const ATTEMPT_INSERT: &'static str = "INSERT INTO recovery_attempts(attempt_id,incident_id,transaction_id,classification,result_state,error_code,created_at) VALUES(?,?,?,?,?,?,?)";

pub const RUN_INSERT: &'static str = "INSERT INTO recovery_runs(run_id,transaction_id,status,started_at) VALUES(?,?,'running',?)";

pub const RUN_COMPLETE: &'static str = "UPDATE recovery_runs SET status=?,classification=?,result_state=?,error_code=?,completed_at=? WHERE run_id=?";

pub const TERMINAL_INSERT: &'static str = "INSERT INTO terminals(terminal_id,project_id,kind,display_name,tmux_window_identity,lifecycle_status,ordinal,created_at) VALUES(?,?,?,?,?,?,?,?)";

pub const TERMINAL_CLOSE: &'static str = "UPDATE terminals SET lifecycle_status='closed',closed_at=COALESCE(closed_at,?) WHERE terminal_id=?";

pub const PROJECT_TERMINALS_CLOSE: &'static str = "UPDATE terminals SET lifecycle_status='closed',closed_at=COALESCE(closed_at,?) WHERE project_id=? AND lifecycle_status!='closed'";

pub const THREAD_INDEX_DELETE: &'static str = "DELETE FROM thread_indexes WHERE project_id=?";

pub const THREAD_INDEX_INSERT: &'static str = "INSERT INTO thread_indexes(project_id,thread_id,source_relative_path,source_modified_at,codex_version,status,indexed_at) VALUES(?,?,?,?,?,?,?)";

pub const USAGE_INSERT: &'static str = "INSERT INTO usage_snapshots(usage_snapshot_id,account_id,codex_version,capability_fingerprint,snapshot_json,captured_at,expires_at,error_code) VALUES(?,?,?,?,?,?,?,?)";

pub const OPERATION_INSERT: &'static str = "INSERT INTO operations(operation_id,method,request_hash,created_at) VALUES(?,?,?,?)";

pub const OPERATION_COMPLETE: &'static str = "UPDATE operations SET response_json=? WHERE operation_id=? AND response_json IS NULL";

/// The insert of an account, with the path of its Vault file.
pub open spec fn is_account_insert(st: (Seq<char>, Seq<SqlParam>), a: Account, vault: Seq<char>) -> bool {
    &&& st.0 == ACCOUNT_INSERT@ && st.1.len() == 9
    &&& text_is(st.1[0], a.account_id@) && text_is(st.1[1], a.display_name@)
    &&& opt_text_is(st.1[2], opt_view(a.masked_email)) && opt_text_is(st.1[3], opt_view(a.plan_type))
    &&& text_is(st.1[4], a.login_status@) && text_is(st.1[5], a.credential_hash@)
    &&& text_is(st.1[6], vault) && int_is(st.1[7], a.created_at) && int_is(st.1[8], a.updated_at)
}

/// The update of what is known of an account.
pub open spec fn is_account_update(
    st: (Seq<char>, Seq<SqlParam>),
    id: Seq<char>,
    masked_email: Option<Seq<char>>,
    plan_type: Option<Seq<char>>,
    login_status: Seq<char>,
    credential_hash: Option<Seq<char>>,
) -> bool {
    &&& st.0 == ACCOUNT_UPDATE@ && st.1.len() == 6
    &&& opt_text_is(st.1[0], masked_email) && opt_text_is(st.1[1], plan_type)
    &&& text_is(st.1[2], login_status) && opt_text_is(st.1[3], credential_hash)
    &&& is_int_param(st.1[4]) && text_is(st.1[5], id)
}

/// The insert of a project.
pub open spec fn is_project_insert(st: (Seq<char>, Seq<SqlParam>), p: Project) -> bool {
    &&& st.0 == PROJECT_INSERT@ && st.1.len() == 8
    &&& text_is(st.1[0], p.project_id@) && text_is(st.1[1], p.name@)
    &&& opt_text_is(st.1[2], opt_view(p.canonical_windows_path))
    &&& text_is(st.1[3], p.canonical_wsl_path@) && text_is(st.1[4], p.runtime_relative_path@)
    &&& text_is(st.1[5], p.tmux_session_name@) && int_is(st.1[6], p.created_at) && int_is(st.1[7], p.updated_at)
}

/// The archiving of a project.
pub open spec fn is_project_archive(st: (Seq<char>, Seq<SqlParam>), id: Seq<char>) -> bool {
    st.0 == PROJECT_ARCHIVE@ && st.1.len() == 3 && is_int_param(st.1[0]) && st.1[1] == st.1[0]
        && text_is(st.1[2], id)
}

/// The insert of a transaction's launch.
pub open spec fn is_launch_insert(st: (Seq<char>, Seq<SqlParam>), t: LaunchTransaction) -> bool {
    &&& st.0 == LAUNCH_INSERT@ && st.1.len() == 5
    &&& text_is(st.1[0], t.launch_id@) && text_is(st.1[1], t.transaction_id@)
    &&& text_is(st.1[2], t.project_id@) && text_is(st.1[3], t.account_id@) && int_is(st.1[4], t.created_at)
}

/// The insert of a launch transaction in its state.
pub open spec fn is_transaction_insert(st: (Seq<char>, Seq<SqlParam>), t: LaunchTransaction) -> bool {
    &&& st.0 == TRANSACTION_INSERT@ && st.1.len() == 7
    &&& text_is(st.1[0], t.transaction_id@) && text_is(st.1[1], t.launch_id@)
    &&& text_is(st.1[2], t.project_id@) && text_is(st.1[3], t.account_id@)
    &&& text_is(st.1[4], t.state.name()) && int_is(st.1[5], t.created_at) && int_is(st.1[6], t.updated_at)
}

/// The update that moves transaction `id` from `current` to `next`, applied
/// only while its stored state is still `current`.
pub open spec fn is_transition_update(
    st: (Seq<char>, Seq<SqlParam>),
    id: Seq<char>,
    current: TransactionState,
    next: TransactionState,
) -> bool {
    st.0 == TRANSITION_UPDATE@ && st.1.len() == 4 && text_is(st.1[0], next.name()) && is_int_param(
        st.1[1],
    ) && text_is(st.1[2], id) && text_is(st.1[3], current.name())
}

/// A permitted move of transaction `id` to `next`, from the state it held.
pub open spec fn is_transition_to(st: (Seq<char>, Seq<SqlParam>), id: Seq<char>, next: TransactionState) -> bool {
    exists|current: TransactionState|
        current.allows(next) && #[trigger] is_transition_update(st, id, current, next)
}

/// The record of the hashes a checkout found.
pub open spec fn is_checkout_update(
    st: (Seq<char>, Seq<SqlParam>),
    id: Seq<char>,
    vault_hash: Seq<char>,
    runtime_hash: Seq<char>,
) -> bool {
    st.0 == CHECKOUT_UPDATE@ && st.1.len() == 4 && text_is(st.1[0], vault_hash) && text_is(
        st.1[1],
        runtime_hash,
    ) && is_int_param(st.1[2]) && text_is(st.1[3], id)
}

/// The record of a launch's runner and Codex processes.
pub open spec fn is_processes_update(
    st: (Seq<char>, Seq<SqlParam>),
    id: Seq<char>,
    runner: crate::model::ProcessIdentity,
    codex: crate::model::ProcessIdentity,
) -> bool {
    &&& st.0 == PROCESSES_UPDATE@ && st.1.len() == 9
    &&& int_is(st.1[0], runner.pid as i64) && int_is(st.1[1], codex.pid as i64)
    &&& text_is(st.1[2], runner.boot_id@) && int_is(st.1[3], runner.start_ticks as i64)
    &&& int_is(st.1[4], codex.start_ticks as i64) && text_is(st.1[5], runner.identity@)
    &&& text_is(st.1[6], codex.identity@) && is_int_param(st.1[7]) && text_is(st.1[8], id)
}

/// The record of the hashes a recovery found; it counts the attempt.
pub open spec fn is_recovery_hashes_update(
    st: (Seq<char>, Seq<SqlParam>),
    id: Seq<char>,
    vault_hash: Option<Seq<char>>,
    runtime_hash: Option<Seq<char>>,
) -> bool {
    st.0 == RECOVERY_HASHES_UPDATE@ && st.1.len() == 4 && opt_text_is(st.1[0], vault_hash)
        && opt_text_is(st.1[1], runtime_hash) && is_int_param(st.1[2]) && text_is(st.1[3], id)
}

/// The record of where a transaction's credential evidence was preserved.
pub open spec fn is_backup_update(st: (Seq<char>, Seq<SqlParam>), id: Seq<char>, relative: Seq<char>) -> bool {
    st.0 == BACKUP_UPDATE@ && st.1.len() == 3 && text_is(st.1[0], relative) && is_int_param(st.1[1])
        && text_is(st.1[2], id)
}

/// The update that fails transaction `id` with a code and a message.
pub open spec fn is_failure_update(
    st: (Seq<char>, Seq<SqlParam>),
    id: Seq<char>,
    code: Seq<char>,
    message: Seq<char>,
) -> bool {
    st.0 == FAILURE_UPDATE@ && st.1.len() == 4 && text_is(st.1[0], code) && text_is(st.1[1], message)
        && is_int_param(st.1[2]) && text_is(st.1[3], id)
}

/// The end of transaction `id`'s launch with an outcome.
pub open spec fn is_launch_finish(st: (Seq<char>, Seq<SqlParam>), id: Seq<char>, outcome: Seq<char>) -> bool {
    st.0 == LAUNCH_FINISH@ && st.1.len() == 3 && text_is(st.1[0], outcome) && is_int_param(st.1[1])
        && text_is(st.1[2], id)
}

/// The insert of a new open incident of transaction `id`, under a fresh
/// identifier.
pub open spec fn is_incident_insert(
    st: (Seq<char>, Seq<SqlParam>),
    id: Seq<char>,
    kind: Seq<char>,
    evidence: Option<Seq<char>>,
) -> bool {
    &&& st.0 == INCIDENT_INSERT@ && st.1.len() == 6
    &&& st.1[0] matches SqlParam::Text(i) && is_fresh_id("incident"@, i@)
    &&& text_is(st.1[1], id) && text_is(st.1[2], kind) && opt_text_is(st.1[3], evidence)
    &&& is_int_param(st.1[4]) && is_int_param(st.1[5])
}

/// The statements with which transaction `id` fails: the failure itself, the
/// end of its launch as `failed`, and the incident, unless one was open.
pub open spec fn is_failing(
    before: Seq<(Seq<char>, Seq<SqlParam>)>,
    after: Seq<(Seq<char>, Seq<SqlParam>)>,
    id: Seq<char>,
    code: Seq<char>,
    message: Seq<char>,
) -> bool {
    let o = before.len() as int;
    &&& after.len() >= o + 2
    &&& is_failure_update(after[o], id, code, message)
    &&& is_launch_finish(after[o + 1], id, "failed"@)
    &&& after.len() == o + 2 || (after.len() == o + 3 && is_incident_insert(after[o + 2], id, code, None))
}

/// The insert of a manual resolution attempt on an incident.
pub open spec fn is_resolution_attempt_insert(
    st: (Seq<char>, Seq<SqlParam>),
    attempt_id: Seq<char>,
    incident_id: Seq<char>,
    action: Seq<char>,
) -> bool {
    st.0 == RESOLUTION_ATTEMPT_INSERT@ && st.1.len() == 5 && text_is(st.1[0], attempt_id) && text_is(
        st.1[1],
        incident_id,
    ) && st.1[2] is Text && text_is(st.1[3], action) && is_int_param(st.1[4])
}

/// The completion of an attempt with its result.
pub open spec fn is_attempt_completion(
    st: (Seq<char>, Seq<SqlParam>),
    attempt_id: Seq<char>,
    result_state: Seq<char>,
    error_code: Option<Seq<char>>,
) -> bool {
    st.0 == ATTEMPT_COMPLETE@ && st.1.len() == 4 && text_is(st.1[0], result_state) && opt_text_is(
        st.1[1],
        error_code,
    ) && is_int_param(st.1[2]) && text_is(st.1[3], attempt_id)
}

/// The resolution of an open incident.
pub open spec fn is_incident_resolution(
    st: (Seq<char>, Seq<SqlParam>),
    incident_id: Seq<char>,
    action: Seq<char>,
    summary: Seq<char>,
) -> bool {
    st.0 == INCIDENT_RESOLVE@ && st.1.len() == 5 && text_is(st.1[0], action) && text_is(st.1[1], summary)
        && is_int_param(st.1[2]) && st.1[3] == st.1[2] && text_is(st.1[4], incident_id)
}

/// The insert of a recovery attempt under a fresh identifier.
pub open spec fn is_attempt_insert(
    st: (Seq<char>, Seq<SqlParam>),
    incident_id: Seq<char>,
    transaction_id: Seq<char>,
    classification: Seq<char>,
    state: TransactionState,
    error_code: Option<Seq<char>>,
) -> bool {
    &&& st.0 == ATTEMPT_INSERT@ && st.1.len() == 7
    &&& st.1[0] matches SqlParam::Text(i) && is_fresh_id("attempt"@, i@)
    &&& text_is(st.1[1], incident_id) && text_is(st.1[2], transaction_id)
    &&& text_is(st.1[3], classification) && text_is(st.1[4], state.name())
    &&& opt_text_is(st.1[5], error_code) && is_int_param(st.1[6])
}

/// The insert of a running recovery run.
pub open spec fn is_run_insert(st: (Seq<char>, Seq<SqlParam>), run_id: Seq<char>, transaction_id: Seq<char>) -> bool {
    st.0 == RUN_INSERT@ && st.1.len() == 3 && text_is(st.1[0], run_id) && text_is(st.1[1], transaction_id)
        && is_int_param(st.1[2])
}

/// The completion of a recovery run: `failed` with an error code,
/// `completed` without.
pub open spec fn is_run_completion(
    st: (Seq<char>, Seq<SqlParam>),
    run_id: Seq<char>,
    classification: Seq<char>,
    state: TransactionState,
    error_code: Option<Seq<char>>,
) -> bool {
    &&& st.0 == RUN_COMPLETE@ && st.1.len() == 6
    &&& text_is(st.1[0], if error_code is Some { "failed"@ } else { "completed"@ })
    &&& text_is(st.1[1], classification) && text_is(st.1[2], state.name())
    &&& opt_text_is(st.1[3], error_code) && is_int_param(st.1[4]) && text_is(st.1[5], run_id)
}

/// The insert of a terminal at its place in the project's order.
pub open spec fn is_terminal_insert(st: (Seq<char>, Seq<SqlParam>), t: Terminal, ordinal: i64) -> bool {
    &&& st.0 == TERMINAL_INSERT@ && st.1.len() == 8
    &&& text_is(st.1[0], t.terminal_id@) && text_is(st.1[1], t.project_id@) && text_is(st.1[2], t.kind@)
    &&& text_is(st.1[3], t.display_name@) && text_is(st.1[4], t.tmux_window_identity@)
    &&& text_is(st.1[5], t.lifecycle_status@) && int_is(st.1[6], ordinal) && int_is(st.1[7], t.created_at)
}

/// The closing of one terminal.
pub open spec fn is_terminal_close(st: (Seq<char>, Seq<SqlParam>), id: Seq<char>) -> bool {
    st.0 == TERMINAL_CLOSE@ && st.1.len() == 2 && is_int_param(st.1[0]) && text_is(st.1[1], id)
}

/// The closing of every open terminal of a project.
pub open spec fn is_project_terminals_close(st: (Seq<char>, Seq<SqlParam>), project_id: Seq<char>) -> bool {
    st.0 == PROJECT_TERMINALS_CLOSE@ && st.1.len() == 2 && is_int_param(st.1[0]) && text_is(st.1[1], project_id)
}

/// The removal of a project's thread index.
pub open spec fn is_thread_index_delete(st: (Seq<char>, Seq<SqlParam>), project_id: Seq<char>) -> bool {
    st.0 == THREAD_INDEX_DELETE@ && st.1.len() == 1 && text_is(st.1[0], project_id)
}

/// The insert of one thread index record.
pub open spec fn is_thread_index_insert(st: (Seq<char>, Seq<SqlParam>), t: ThreadIndex) -> bool {
    &&& st.0 == THREAD_INDEX_INSERT@ && st.1.len() == 7
    &&& text_is(st.1[0], t.project_id@) && text_is(st.1[1], t.thread_id@)
    &&& text_is(st.1[2], t.source_relative_path@) && int_is(st.1[3], t.source_modified_at)
    &&& opt_text_is(st.1[4], opt_view(t.codex_version)) && text_is(st.1[5], t.status@)
    &&& int_is(st.1[6], t.indexed_at)
}

/// The insert of a usage snapshot with its encoded form.
pub open spec fn is_usage_insert(st: (Seq<char>, Seq<SqlParam>), s: crate::model::UsageSnapshot, encoded: Seq<char>) -> bool {
    &&& st.0 == USAGE_INSERT@ && st.1.len() == 8
    &&& text_is(st.1[0], s.usage_snapshot_id@) && text_is(st.1[1], s.account_id@)
    &&& text_is(st.1[2], s.codex_version@) && text_is(st.1[3], s.capability_fingerprint@)
    &&& text_is(st.1[4], encoded) && int_is(st.1[5], s.captured_at) && int_is(st.1[6], s.expires_at)
    &&& opt_text_is(st.1[7], opt_view(s.error_code))
}

/// The claim of a new operation identifier.
pub open spec fn is_operation_insert(
    st: (Seq<char>, Seq<SqlParam>),
    id: Seq<char>,
    method: Seq<char>,
    request_hash: Seq<char>,
) -> bool {
    st.0 == OPERATION_INSERT@ && st.1.len() == 4 && text_is(st.1[0], id) && text_is(st.1[1], method)
        && text_is(st.1[2], request_hash) && is_int_param(st.1[3])
}

/// The storing of an operation's response, once.
pub open spec fn is_operation_completion(st: (Seq<char>, Seq<SqlParam>), id: Seq<char>, response: Seq<char>) -> bool {
    st.0 == OPERATION_COMPLETE@ && st.1.len() == 2 && text_is(st.1[0], response) && text_is(st.1[1], id)
}

impl Storage {
    /// Hands a changing statement to SQLite on a fresh connection.
    pub(crate) fn execute(&mut self, sql: &str, params: &[SqlParam]) -> (r: CoreResult<usize>)
        ensures
            final(self).spec_layout() == old(self).spec_layout(),
            final(self).issued() == old(self).issued() || final(self).issued() == old(
                self,
            ).issued().push((sql@, params@)),
            r is Ok ==> final(self).issued() == old(self).issued().push((sql@, params@)),
            final(self).queried() == old(self).queried(),
            r matches Ok(n) ==> final(self).changes() == old(self).changes().push(n),
            r is Err ==> final(self).changes() == old(self).changes(),
            r matches Err(e) ==> is_storage_failure(e),
    {
        let connection = self.connect()?;
        self.issue(&connection, sql, params)
    }

    pub fn insert_account(&mut self, account: &Account, vault_relative_path: &str) -> (r: CoreResult<()>)
        ensures
            final(self).spec_layout() == old(self).spec_layout(),
            grown(old(self).issued(), final(self).issued()),
            final(self).issued().len() <= old(self).issued().len() + 1,
            r is Ok ==> final(self).issued().len() == old(self).issued().len() + 1
                && is_account_insert(final(self).issued().last(), *account, vault_relative_path@),
            r matches Err(e) ==> is_storage_failure(e),
    {
        let params = [
            text_param(account.account_id.as_str()),
            text_param(account.display_name.as_str()),
            opt_text_param(as_opt_str(&account.masked_email)),
            opt_text_param(as_opt_str(&account.plan_type)),
            text_param(account.login_status.as_str()),
            text_param(account.credential_hash.as_str()),
            text_param(vault_relative_path),
            SqlParam::Integer(account.created_at),
            SqlParam::Integer(account.updated_at),
        ];
        self.execute(ACCOUNT_INSERT, &params)?;
        Ok(())
    }

    /// Updates what is known of an account; an absent value keeps the stored one.
    pub fn update_account_metadata(
        &mut self,
        account_id: &str,
        masked_email: Option<&str>,
        plan_type: Option<&str>,
        login_status: &str,
        credential_hash: Option<&str>,
    ) -> (r: CoreResult<()>)
        ensures
            final(self).spec_layout() == old(self).spec_layout(),
            grown(old(self).issued(), final(self).issued()),
            final(self).issued().len() <= old(self).issued().len() + 1,
            r is Ok ==> final(self).issued().len() == old(self).issued().len() + 1
                && is_account_update(
                final(self).issued().last(),
                account_id@,
                opt_str_view(masked_email),
                opt_str_view(plan_type),
                login_status@,
                opt_str_view(credential_hash),
            ),
            r matches Err(e) ==> is_storage_failure(e),
    {
        let params = [
            opt_text_param(masked_email),
            opt_text_param(plan_type),
            text_param(login_status),
            opt_text_param(credential_hash),
            SqlParam::Integer(now()),
            text_param(account_id),
        ];
        self.execute(ACCOUNT_UPDATE, &params)?;
        Ok(())
    }

    pub fn insert_project(&mut self, project: &Project) -> (r: CoreResult<()>)
        ensures
            final(self).spec_layout() == old(self).spec_layout(),
            grown(old(self).issued(), final(self).issued()),
            final(self).issued().len() <= old(self).issued().len() + 1,
            r is Ok ==> final(self).issued().len() == old(self).issued().len() + 1
                && is_project_insert(final(self).issued().last(), *project),
            r matches Err(e) ==> is_storage_failure(e),
    {
        let params = [
            text_param(project.project_id.as_str()),
            text_param(project.name.as_str()),
            opt_text_param(as_opt_str(&project.canonical_windows_path)),
            text_param(project.canonical_wsl_path.as_str()),
            text_param(project.runtime_relative_path.as_str()),
            text_param(project.tmux_session_name.as_str()),
            SqlParam::Integer(project.created_at),
            SqlParam::Integer(project.updated_at),
        ];
        self.execute(PROJECT_INSERT, &params)?;
        Ok(())
    }

    /// Archives a project, keeping the first archive time.
    pub fn archive_project(&mut self, project_id: &str) -> (r: CoreResult<Project>)
        ensures
            final(self).spec_layout() == old(self).spec_layout(),
            grown(old(self).issued(), final(self).issued()),
            final(self).issued().len() <= old(self).issued().len() + 1,
            r is Ok ==> final(self).issued().len() == old(self).issued().len() + 1
                && is_project_archive(final(self).issued().last(), project_id@),
            r is Ok ==> final(self).changes().len() == old(self).changes().len() + 1
                && final(self).changes().last() > 0,
            final(self).changes().len() == old(self).changes().len() + 1 && final(self).changes().last()
                == 0 ==> r is Err,
            final(self).changes() == old(self).changes() || final(self).changes() == old(
                self,
            ).changes().push(final(self).changes().last()),
            r matches Ok(p) ==> p.project_id@ == project_id@,
            r matches Err(e) ==> storage_or(e, "NOT_FOUND"@),
    {
        let timestamp = now();
        let params = [SqlParam::Integer(timestamp), SqlParam::Integer(timestamp), text_param(project_id)];
        let changed = self.execute(PROJECT_ARCHIVE, &params)?;
        check_found(changed, "project was not found")?;
        self.project_including_archived(project_id)
    }

    /// Records a new launch and its transaction together, in one database
    /// transaction.
    pub fn create_launch(&mut self, transaction: &LaunchTransaction) -> (r: CoreResult<()>)
        ensures
            final(self).spec_layout() == old(self).spec_layout(),
            grown(old(self).issued(), final(self).issued()),
            final(self).issued().len() <= old(self).issued().len() + 2,
            r is Ok ==> final(self).issued().len() == old(self).issued().len() + 2
                && is_launch_insert(final(self).issued()[old(self).issued().len() as int], *transaction)
                && is_transaction_insert(final(self).issued().last(), *transaction),
            r matches Err(e) ==> is_storage_failure(e),
    {
        let mut connection = self.connect()?;
        let database = stored(sqlite_transaction(&mut connection))?;
        let launch = [
            text_param(transaction.launch_id.as_str()),
            text_param(transaction.transaction_id.as_str()),
            text_param(transaction.project_id.as_str()),
            text_param(transaction.account_id.as_str()),
            SqlParam::Integer(transaction.created_at),
        ];
        self.issue(transaction_connection(&database), LAUNCH_INSERT, &launch)?;
        let record = [
            text_param(transaction.transaction_id.as_str()),
            text_param(transaction.launch_id.as_str()),
            text_param(transaction.project_id.as_str()),
            text_param(transaction.account_id.as_str()),
            text_param(transaction.state.as_str()),
            SqlParam::Integer(transaction.created_at),
            SqlParam::Integer(transaction.updated_at),
        ];
        self.issue(transaction_connection(&database), TRANSACTION_INSERT, &record)?;
        stored(sqlite_commit(database))?;
        Ok(())
    }

    /// Moves a transaction to `next` if its stored state allows it; the update
    /// applies only while the state is still the one that was checked.
    pub fn transition(&mut self, transaction_id: &str, next: TransactionState) -> (r: CoreResult<()>)
        ensures
            final(self).spec_layout() == old(self).spec_layout(),
            grown(old(self).issued(), final(self).issued()),
            final(self).issued().len() <= old(self).issued().len() + 1,
            r is Ok ==> final(self).issued().len() == old(self).issued().len() + 1
                && is_transition_to(final(self).issued().last(), transaction_id@, next),
            r matches Err(e) && e.code@ == "INVALID_STATE"@ ==> final(self).issued() == old(self).issued(),
            r matches Err(e) ==> storage_or(e, "NOT_FOUND"@) || e.code@ == "INVALID_STATE"@,
    {
        proof {
            reveal_strlit("STORAGE_FAILURE");
            reveal_strlit("INVALID_STATE");
            assert("STORAGE_FAILURE"@.len() == 15);
            assert("INVALID_STATE"@.len() == 13);
        }
        let current = self.transaction(transaction_id)?.state;
        check_transition(current, next)?;
        let params = [
            text_param(next.as_str()),
            SqlParam::Integer(now()),
            text_param(transaction_id),
            text_param(current.as_str()),
        ];
        self.execute(TRANSITION_UPDATE, &params)?;
        assert(is_transition_update(self.issued().last(), transaction_id@, current, next));
        Ok(())
    }

    pub fn record_checkout(&mut self, transaction_id: &str, vault_hash: &str, runtime_hash: &str) -> (r:
        CoreResult<()>)
        ensures
            final(self).spec_layout() == old(self).spec_layout(),
            grown(old(self).issued(), final(self).issued()),
            final(self).issued().len() <= old(self).issued().len() + 2,
            r is Ok ==> final(self).issued().len() == old(self).issued().len() + 2
                && is_checkout_update(
                final(self).issued()[old(self).issued().len() as int],
                transaction_id@,
                vault_hash@,
                runtime_hash@,
            ) && is_transition_to(final(self).issued().last(), transaction_id@, TransactionState::CheckedOut),
            r matches Err(e) ==> storage_or(e, "NOT_FOUND"@) || e.code@ == "INVALID_STATE"@,
    {
        let params = [
            text_param(vault_hash),
            text_param(runtime_hash),
            SqlParam::Integer(now()),
            text_param(transaction_id),
        ];
        self.execute(CHECKOUT_UPDATE, &params)?;
        self.transition(transaction_id, TransactionState::CheckedOut)
    }

    pub fn record_processes(
        &mut self,
        transaction_id: &str,
        runner: &crate::model::ProcessIdentity,
        codex: &crate::model::ProcessIdentity,
    ) -> (r: CoreResult<()>)
        ensures
            final(self).spec_layout() == old(self).spec_layout(),
            grown(old(self).issued(), final(self).issued()),
            final(self).issued().len() <= old(self).issued().len() + 2,
            r is Ok ==> final(self).issued().len() == old(self).issued().len() + 2
                && is_processes_update(
                final(self).issued()[old(self).issued().len() as int],
                transaction_id@,
                *runner,
                *codex,
            ) && is_transition_to(final(self).issued().last(), transaction_id@, TransactionState::Running),
            r matches Err(e) ==> storage_or(e, "NOT_FOUND"@) || e.code@ == "INVALID_STATE"@,
    {
        let params = [
            SqlParam::Integer(runner.pid as i64),
            SqlParam::Integer(codex.pid as i64),
            text_param(runner.boot_id.as_str()),
            SqlParam::Integer(runner.start_ticks as i64),
            SqlParam::Integer(codex.start_ticks as i64),
            text_param(runner.identity.as_str()),
            text_param(codex.identity.as_str()),
            SqlParam::Integer(now()),
            text_param(transaction_id),
        ];
        self.execute(PROCESSES_UPDATE, &params)?;
        self.transition(transaction_id, TransactionState::Running)
    }

    pub fn record_recovery_hashes(
        &mut self,
        transaction_id: &str,
        vault_hash: Option<&str>,
        runtime_hash: Option<&str>,
    ) -> (r: CoreResult<()>)
        ensures
            final(self).spec_layout() == old(self).spec_layout(),
            grown(old(self).issued(), final(self).issued()),
            final(self).issued().len() <= old(self).issued().len() + 1,
            r is Ok ==> final(self).issued().len() == old(self).issued().len() + 1
                && is_recovery_hashes_update(
                final(self).issued().last(),
                transaction_id@,
                opt_str_view(vault_hash),
                opt_str_view(runtime_hash),
            ),
            r matches Err(e) ==> is_storage_failure(e),
    {
        let params = [
            opt_text_param(vault_hash),
            opt_text_param(runtime_hash),
            SqlParam::Integer(now()),
            text_param(transaction_id),
        ];
        self.execute(RECOVERY_HASHES_UPDATE, &params)?;
        Ok(())
    }

    pub fn record_backup(&mut self, transaction_id: &str, relative: &str) -> (r: CoreResult<()>)
        ensures
            final(self).spec_layout() == old(self).spec_layout(),
            grown(old(self).issued(), final(self).issued()),
            final(self).issued().len() <= old(self).issued().len() + 1,
            r is Ok ==> final(self).issued().len() == old(self).issued().len() + 1
                && is_backup_update(final(self).issued().last(), transaction_id@, relative@),
            r matches Err(e) ==> is_storage_failure(e),
    {
        let params = [text_param(relative), SqlParam::Integer(now()), text_param(transaction_id)];
        self.execute(BACKUP_UPDATE, &params)?;
        Ok(())
    }

    /// Fails a transaction that is not yet terminal, ends its launch and opens
    /// an incident; a terminal transaction is left as it is.
    pub fn fail(&mut self, transaction_id: &str, code: &str, message: &str) -> (r: CoreResult<()>)
        ensures
            final(self).spec_layout() == old(self).spec_layout(),
            grown(old(self).issued(), final(self).issued()),
            r is Ok ==> final(self).issued() == old(self).issued() || is_failing(
                old(self).issued(),
                final(self).issued(),
                transaction_id@,
                code@,
                message@,
            ),
            r matches Err(e) ==> storage_or(e, "NOT_FOUND"@),
    {
        let current = self.transaction(transaction_id)?.state;
        if current.terminal() {
            return Ok(());
        }
        let params = [
            text_param(code),
            text_param(message),
            SqlParam::Integer(now()),
            text_param(transaction_id),
        ];
        self.execute(FAILURE_UPDATE, &params)?;
        let ghost after_failure = self.issued();
        self.finish_launch(transaction_id, "failed")?;
        let ghost after_finish = self.issued();
        self.create_incident(transaction_id, code, None)?;
        proof {
            reveal_strlit("failed");
            let o = old(self).issued().len() as int;
            assert(after_finish[o] == after_failure[o]);
            assert(self.issued()[o] == after_finish[o]);
            assert(self.issued()[o + 1] == after_finish[o + 1]);
        }
        Ok(())
    }

    pub fn finish_launch(&mut self, transaction_id: &str, outcome: &str) -> (r: CoreResult<()>)
        ensures
            final(self).spec_layout() == old(self).spec_layout(),
            grown(old(self).issued(), final(self).issued()),
            final(self).issued().len() <= old(self).issued().len() + 1,
            r is Ok ==> final(self).issued().len() == old(self).issued().len() + 1
                && is_launch_finish(final(self).issued().last(), transaction_id@, outcome@),
            r matches Err(e) ==> is_storage_failure(e),
    {
        let params = [text_param(outcome), SqlParam::Integer(now()), text_param(transaction_id)];
        self.execute(LAUNCH_FINISH, &params)?;
        Ok(())
    }

    /// The transaction's open incident, or a new one.
    pub fn create_incident(&mut self, transaction_id: &str, kind: &str, evidence: Option<&str>) -> (r:
        CoreResult<String>)
        ensures
            final(self).spec_layout() == old(self).spec_layout(),
            grown(old(self).issued(), final(self).issued()),
            final(self).issued().len() <= old(self).issued().len() + 1,
            r is Ok && final(self).issued().len() == old(self).issued().len() + 1 ==> is_incident_insert(
                final(self).issued().last(),
                transaction_id@,
                kind@,
                opt_str_view(evidence),
            ) && (r matches Ok(id) && text_is(final(self).issued().last().1[0], id@)),
            r matches Err(e) ==> is_storage_failure(e),
    {
        let connection = self.connect()?;
        let lookup = [text_param(transaction_id)];
        let rows = self.ask(
            &connection,
            "SELECT incident_id FROM recovery_incidents WHERE transaction_id=? AND status='open'",
            &lookup,
            1,
        )?;
        if rows.len() > 0 {
            return crate::rows::text_cell(&rows[0], 0);
        }
        let incident_id = fresh_id("incident");
        let params = [
            text_param(incident_id.as_str()),
            text_param(transaction_id),
            text_param(kind),
            opt_text_param(evidence),
            SqlParam::Integer(now()),
            SqlParam::Integer(now()),
        ];
        self.issue(&connection, INCIDENT_INSERT, &params)?;
        Ok(incident_id)
    }

    pub fn begin_resolution_attempt(&mut self, incident_id: &str, action: &str) -> (r: CoreResult<String>)
        ensures
            final(self).spec_layout() == old(self).spec_layout(),
            grown(old(self).issued(), final(self).issued()),
            final(self).issued().len() <= old(self).issued().len() + 1,
            r matches Ok(id) ==> is_fresh_id("attempt"@, id@) && final(self).issued().len()
                == old(self).issued().len() + 1 && is_resolution_attempt_insert(
                final(self).issued().last(),
                id@,
                incident_id@,
                action@,
            ),
            r matches Err(e) ==> storage_or(e, "NOT_FOUND"@),
    {
        let incident = self.incident(incident_id)?;
        let attempt_id = fresh_id("attempt");
        let params = [
            text_param(attempt_id.as_str()),
            text_param(incident_id),
            text_param(incident.transaction_id.as_str()),
            text_param(action),
            SqlParam::Integer(now()),
        ];
        self.execute(RESOLUTION_ATTEMPT_INSERT, &params)?;
        Ok(attempt_id)
    }

    pub fn complete_resolution_attempt(
        &mut self,
        attempt_id: &str,
        result_state: &str,
        error_code: Option<&str>,
    ) -> (r: CoreResult<()>)
        ensures
            final(self).spec_layout() == old(self).spec_layout(),
            grown(old(self).issued(), final(self).issued()),
            final(self).issued().len() <= old(self).issued().len() + 1,
            r is Ok ==> final(self).issued().len() == old(self).issued().len() + 1,
            final(self).issued().len() == old(self).issued().len() + 1 ==> is_attempt_completion(
                final(self).issued().last(),
                attempt_id@,
                result_state@,
                opt_str_view(error_code),
            ),
            r matches Err(e) ==> is_storage_failure(e),
    {
        let params = [
            text_param(result_state),
            opt_text_param(error_code),
            SqlParam::Integer(now()),
            text_param(attempt_id),
        ];
        self.execute(ATTEMPT_COMPLETE, &params)?;
        Ok(())
    }

    /// Resolves an open incident; one already resolved is returned as it is.
    pub fn resolve_incident(&mut self, incident_id: &str, action: &str, summary: &str) -> (r:
        CoreResult<RecoveryIncident>)
        ensures
            final(self).spec_layout() == old(self).spec_layout(),
            grown(old(self).issued(), final(self).issued()),
            final(self).issued().len() <= old(self).issued().len() + 1,
            r is Ok ==> final(self).issued().len() == old(self).issued().len() + 1
                && is_incident_resolution(final(self).issued().last(), incident_id@, action@, summary@),
            r is Ok ==> final(self).changes().len() == old(self).changes().len() + 1,
            final(self).changes() == old(self).changes() || final(self).changes() == old(
                self,
            ).changes().push(final(self).changes().last()),
            r matches Err(e) && e.code@ == "INVALID_STATE"@ ==> final(self).changes().len() == old(
                self,
            ).changes().len() + 1 && final(self).changes().last() == 0,
            r matches Err(e) ==> storage_or(e, "NOT_FOUND"@) || e.code@ == "INVALID_STATE"@,
    {
        proof {
            reveal_strlit("INVALID_STATE");
            reveal_strlit("STORAGE_FAILURE");
            reveal_strlit("NOT_FOUND");
            assert("INVALID_STATE"@[0] != "STORAGE_FAILURE"@[0]);
            assert("INVALID_STATE"@[0] != "NOT_FOUND"@[0]);
        }
        let timestamp = now();
        let params = [
            text_param(action),
            text_param(summary),
            SqlParam::Integer(timestamp),
            SqlParam::Integer(timestamp),
            text_param(incident_id),
        ];
        let changed = self.execute(INCIDENT_RESOLVE, &params)?;
        if changed == 0 {
            let incident = self.incident(incident_id)?;
            check_resolution(changed, incident.status.as_str())?;
        }
        self.incident(incident_id)
    }

    pub fn record_recovery_attempt(
        &mut self,
        incident_id: &str,
        transaction_id: &str,
        classification: &str,
        state: TransactionState,
        error_code: Option<&str>,
    ) -> (r: CoreResult<()>)
        ensures
            final(self).spec_layout() == old(self).spec_layout(),
            grown(old(self).issued(), final(self).issued()),
            final(self).issued().len() <= old(self).issued().len() + 1,
            r is Ok ==> final(self).issued().len() == old(self).issued().len() + 1
                && is_attempt_insert(
                final(self).issued().last(),
                incident_id@,
                transaction_id@,
                classification@,
                state,
                opt_str_view(error_code),
            ),
            r matches Err(e) ==> is_storage_failure(e),
    {
        let attempt_id = fresh_id("attempt");
        let params = [
            text_param(attempt_id.as_str()),
            text_param(incident_id),
            text_param(transaction_id),
            text_param(classification),
            text_param(state.as_str()),
            opt_text_param(error_code),
            SqlParam::Integer(now()),
        ];
        self.execute(ATTEMPT_INSERT, &params)?;
        Ok(())
    }

    pub fn begin_recovery_run(&mut self, transaction_id: &str) -> (r: CoreResult<String>)
        ensures
            final(self).spec_layout() == old(self).spec_layout(),
            grown(old(self).issued(), final(self).issued()),
            final(self).issued().len() <= old(self).issued().len() + 1,
            r matches Ok(id) ==> is_fresh_id("recovery_run"@, id@) && final(self).issued().len()
                == old(self).issued().len() + 1 && is_run_insert(
                final(self).issued().last(),
                id@,
                transaction_id@,
            ),
            r matches Err(e) ==> is_storage_failure(e),
    {
        let run_id = fresh_id("recovery_run");
        let params = [text_param(run_id.as_str()), text_param(transaction_id), SqlParam::Integer(now())];
        self.execute(RUN_INSERT, &params)?;
        Ok(run_id)
    }

    pub fn complete_recovery_run(
        &mut self,
        run_id: &str,
        classification: &str,
        state: TransactionState,
        error_code: Option<&str>,
    ) -> (r: CoreResult<()>)
        ensures
            final(self).spec_layout() == old(self).spec_layout(),
            grown(old(self).issued(), final(self).issued()),
            final(self).issued().len() <= old(self).issued().len() + 1,
            r is Ok ==> final(self).issued().len() == old(self).issued().len() + 1
                && is_run_completion(
                final(self).issued().last(),
                run_id@,
                classification@,
                state,
                opt_str_view(error_code),
            ),
            r matches Err(e) ==> is_storage_failure(e),
    {
        let params = [
            text_param(run_status(error_code)),
            text_param(classification),
            text_param(state.as_str()),
            opt_text_param(error_code),
            SqlParam::Integer(now()),
            text_param(run_id),
        ];
        self.execute(RUN_COMPLETE, &params)?;
        Ok(())
    }

    pub fn insert_terminal(&mut self, terminal: &Terminal, ordinal: i64) -> (r: CoreResult<()>)
        ensures
            final(self).spec_layout() == old(self).spec_layout(),
            grown(old(self).issued(), final(self).issued()),
            final(self).issued().len() <= old(self).issued().len() + 1,
            r is Ok ==> final(self).issued().len() == old(self).issued().len() + 1
                && is_terminal_insert(final(self).issued().last(), *terminal, ordinal),
            r matches Err(e) ==> is_storage_failure(e),
    {
        let params = [
            text_param(terminal.terminal_id.as_str()),
            text_param(terminal.project_id.as_str()),
            text_param(terminal.kind.as_str()),
            text_param(terminal.display_name.as_str()),
            text_param(terminal.tmux_window_identity.as_str()),
            text_param(terminal.lifecycle_status.as_str()),
            SqlParam::Integer(ordinal),
            SqlParam::Integer(terminal.created_at),
        ];
        self.execute(TERMINAL_INSERT, &params)?;
        Ok(())
    }

    /// Closes a terminal, keeping the first close time.
    pub fn close_terminal(&mut self, terminal_id: &str) -> (r: CoreResult<Terminal>)
        ensures
            final(self).spec_layout() == old(self).spec_layout(),
            grown(old(self).issued(), final(self).issued()),
            final(self).issued().len() <= old(self).issued().len() + 1,
            r is Ok ==> final(self).issued().len() == old(self).issued().len() + 1
                && is_terminal_close(final(self).issued().last(), terminal_id@),
            r matches Err(e) ==> storage_or(e, "NOT_FOUND"@),
    {
        let params = [SqlParam::Integer(now()), text_param(terminal_id)];
        self.execute(TERMINAL_CLOSE, &params)?;
        self.terminal(terminal_id)
    }

    pub fn close_project_terminals(&mut self, project_id: &str) -> (r: CoreResult<()>)
        ensures
            final(self).spec_layout() == old(self).spec_layout(),
            grown(old(self).issued(), final(self).issued()),
            final(self).issued().len() <= old(self).issued().len() + 1,
            r is Ok ==> final(self).issued().len() == old(self).issued().len() + 1
                && is_project_terminals_close(final(self).issued().last(), project_id@),
            r matches Err(e) ==> is_storage_failure(e),
    {
        let params = [SqlParam::Integer(now()), text_param(project_id)];
        self.execute(PROJECT_TERMINALS_CLOSE, &params)?;
        Ok(())
    }

    /// Replaces a project's thread index in one transaction: its rows are
    /// deleted, then each index is inserted in order.
    pub fn replace_thread_indexes(&mut self, project_id: &str, indexes: &[ThreadIndex]) -> (r:
        CoreResult<()>)
        ensures
            final(self).spec_layout() == old(self).spec_layout(),
            grown(old(self).issued(), final(self).issued()),
            r is Ok ==> final(self).issued().len() == old(self).issued().len() + 1 + indexes@.len()
                && is_thread_index_delete(
                final(self).issued()[old(self).issued().len() as int],
                project_id@,
            ) && forall|i: int|
                0 <= i < indexes@.len() ==> is_thread_index_insert(
                    #[trigger] final(self).issued()[old(self).issued().len() + 1 + i],
                    indexes@[i],
                ),
            r matches Err(e) ==> is_storage_failure(e),
    {
        let mut connection = self.connect()?;
        let transaction = stored(sqlite_transaction(&mut connection))?;
        let scope = [text_param(project_id)];
        let ghost start = self.issued().len();
        self.issue(transaction_connection(&transaction), THREAD_INDEX_DELETE, &scope)?;
        let mut k: usize = 0;
        while k < indexes.len()
            invariant
                k <= indexes@.len(),
                self.spec_layout() == old(self).spec_layout(),
                start == old(self).issued().len(),
                grown(old(self).issued(), self.issued()),
                self.issued().len() == start + 1 + k,
                is_thread_index_delete(self.issued()[start as int], project_id@),
                forall|i: int|
                    0 <= i < k ==> is_thread_index_insert(
                        #[trigger] self.issued()[start + 1 + i],
                        indexes@[i],
                    ),
            decreases indexes@.len() - k,
        {
            let index = &indexes[k];
            let params = [
                text_param(index.project_id.as_str()),
                text_param(index.thread_id.as_str()),
                text_param(index.source_relative_path.as_str()),
                SqlParam::Integer(index.source_modified_at),
                opt_text_param(as_opt_str(&index.codex_version)),
                text_param(index.status.as_str()),
                SqlParam::Integer(index.indexed_at),
            ];
            let ghost before = self.issued();
            self.issue(transaction_connection(&transaction), THREAD_INDEX_INSERT, &params)?;
            proof {
                assert forall|i: int| 0 <= i < k implies is_thread_index_insert(
                    #[trigger] self.issued()[start + 1 + i],
                    indexes@[i],
                ) by {
                    assert(self.issued()[start + 1 + i] == before[start + 1 + i]);
                }
                assert(self.issued()[start as int] == before[start as int]);
                assert(is_thread_index_insert(self.issued()[start + 1 + k], indexes@[k as int]));
            }
            k = k + 1;
        }
        stored(sqlite_commit(transaction))?;
        Ok(())
    }

    /// Caches a usage snapshot with its encoded form.
    pub fn cache_usage(&mut self, snapshot: &crate::model::UsageSnapshot, encoded: &str) -> (r:
        CoreResult<()>)
        ensures
            final(self).spec_layout() == old(self).spec_layout(),
            grown(old(self).issued(), final(self).issued()),
            final(self).issued().len() <= old(self).issued().len() + 1,
            r is Ok ==> final(self).issued().len() == old(self).issued().len() + 1
                && is_usage_insert(final(self).issued().last(), *snapshot, encoded@),
            r matches Err(e) ==> is_storage_failure(e),
    {
        let params = [
            text_param(snapshot.usage_snapshot_id.as_str()),
            text_param(snapshot.account_id.as_str()),
            text_param(snapshot.codex_version.as_str()),
            text_param(snapshot.capability_fingerprint.as_str()),
            text_param(encoded),
            SqlParam::Integer(snapshot.captured_at),
            SqlParam::Integer(snapshot.expires_at),
            opt_text_param(as_opt_str(&snapshot.error_code)),
        ];
        self.execute(USAGE_INSERT, &params)?;
        Ok(())
    }

    fn read_claim(&mut self, connection: &rusqlite::Connection, operation_id: &str) -> (r: CoreResult<
        Vec<Vec<Cell>>,
    >)
        ensures
            read_from(*old(self), *final(self)),
            r matches Ok(rows) ==> forall|i: int| 0 <= i < rows@.len() ==> #[trigger] rows@[i]@.len() == 3,
            r matches Err(e) ==> is_storage_failure(e),
    {
        let params = [text_param(operation_id)];
        self.ask(
            connection,
            "SELECT method,request_hash,response_json FROM operations WHERE operation_id=?",
            &params,
            3,
        )
    }

    /// Claims an operation identifier for a request. The identifier stays
    /// bound to the method and request hash it was first claimed with; a new
    /// claim inserts the identifier with them.
    pub fn claim_operation(&mut self, operation_id: &str, method: &str, request_hash: &str) -> (r:
        CoreResult<OperationClaim>)
        ensures
            final(self).spec_layout() == old(self).spec_layout(),
            grown(old(self).issued(), final(self).issued()),
            final(self).issued().len() <= old(self).issued().len() + 1,
            final(self).issued().len() == old(self).issued().len() + 1 ==> is_operation_insert(
                final(self).issued().last(),
                operation_id@,
                method@,
                request_hash@,
            ),
            r matches Ok(OperationClaim::New) ==> final(self).issued().len() == old(self).issued().len() + 1,
            r matches Err(e) ==> storage_or(e, "CONFLICT"@),
    {
        let connection = self.connect()?;
        let rows = self.read_claim(&connection, operation_id)?;
        if rows.len() > 0 {
            return existing_claim(&rows[0], method, request_hash);
        }
        let params = [
            text_param(operation_id),
            text_param(method),
            text_param(request_hash),
            SqlParam::Integer(now()),
        ];
        let ghost before = self.issued();
        let outcome = sqlite_execute(&connection, OPERATION_INSERT, sqlite_values(&params));
        proof {
            self.issued@ = self.issued@.push((OPERATION_INSERT@, params@));
        }
        match outcome {
            Ok(_) => Ok(OperationClaim::New),
            Err(error) => {
                if !is_constraint_violation(&error) {
                    return Err(CoreError::storage(error));
                }
                let rows = self.read_claim(&connection, operation_id)?;
                if rows.len() == 0 {
                    return Err(CoreError::storage(error));
                }
                existing_claim(&rows[0], method, request_hash)
            },
        }
    }

    /// Stores the response of a claimed operation, exactly once.
    pub fn complete_operation(&mut self, operation_id: &str, response_json: &str) -> (r: CoreResult<()>)
        ensures
            final(self).spec_layout() == old(self).spec_layout(),
            grown(old(self).issued(), final(self).issued()),
            final(self).issued().len() <= old(self).issued().len() + 1,
            r is Ok ==> final(self).issued().len() == old(self).issued().len() + 1
                && is_operation_completion(final(self).issued().last(), operation_id@, response_json@),
            r is Ok <==> final(self).changes().len() == old(self).changes().len() + 1
                && final(self).changes().last() == 1,
            final(self).changes() == old(self).changes() || final(self).changes() == old(
                self,
            ).changes().push(final(self).changes().last()),
            r matches Err(e) ==> storage_or(e, "CONFLICT"@),
    {
        let params = [text_param(response_json), text_param(operation_id)];
        let changed = self.execute(OPERATION_COMPLETE, &params)?;
        check_unique_completion(changed)
    }
}

/// The text of an optional string, borrowed.
pub fn as_opt_str(o: &Option<String>) -> (r: Option<&str>)
    ensures
        o is None ==> r is None,
        o matches Some(s) ==> r matches Some(t) && t@ == s@,
{
    match o {
        Some(s) => Some(s.as_str()),
        None => None,
    }
}

} // verus!
