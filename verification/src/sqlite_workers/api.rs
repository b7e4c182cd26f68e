//! What the worker answers over HTTP: the requests it knows, the defaults
//! of their parameters, and how a failure is reported.

use crate::databases::database::{contents_for, row_views, DatabaseRow, RowView};
use crate::sqlite_workers::databases_store::{
    distinct_rows, lemma_contents_of_table_rows, lemma_truncating_upsert_round_trip, rows_at,
    rows_of_table, upsert_step, MemoryDatabasesStore, StoreView,
};
use crate::sqlite_workers::registry::{
    admits, invalidate_step, lookup_step, DatabaseRegistry, Lookup, RegistryView,
};
use vstd::prelude::*;
use vstd::string::*;

verus! {

/// The port on which the worker listens, on all interfaces.
pub const LISTEN_PORT: u16 = 3005;

/// The number of threads that serve requests.
pub const WORKER_THREADS: usize = 32;

/// How long a query may run, in milliseconds.
pub const QUERY_TIMEOUT_MS: u64 = 30_000;

/// What the worker answers at its root.
pub const WELCOME: &'static str = "Welcome to SQLite worker.";

/// The status of an answer that reports success.
pub const STATUS_OK: u16 = 200;

/// The status of an answer that reports a failure.
pub const STATUS_INTERNAL_SERVER_ERROR: u16 = 500;

/// What a request asks for.
#[derive(Clone, Copy, PartialEq, Eq, Structural, Debug)]
pub enum Operation {
    Query,
    UpsertRows,
    ListRows,
}

/// In which way a query failed.
#[derive(Clone, Copy, PartialEq, Eq, Structural, Debug)]
pub enum QueryErrorKind {
    /// The statement would write.
    ReadonlyViolation,
    Syntax,
    Runtime,
    Timeout,
}

/// What went wrong while a request was served.
#[derive(Clone, Copy, PartialEq, Eq, Structural, Debug)]
pub enum WorkerFailure {
    /// The store of rows failed.
    Storage,
    /// No schema could be inferred.
    Schema,
    /// The engine could not be built or filled.
    Materialization,
    /// The query failed.
    Query(QueryErrorKind),
}

impl QueryErrorKind {
    pub open spec fn name(self) -> Seq<char> {
        match self {
            QueryErrorKind::ReadonlyViolation => "readonly_violation"@,
            QueryErrorKind::Syntax => "syntax"@,
            QueryErrorKind::Runtime => "runtime"@,
            QueryErrorKind::Timeout => "timeout"@,
        }
    }

    /// The name under which an answer reports the kind.
    pub fn to_string(&self) -> (name: String)
        ensures
            name@ == self.name(),
    {
        match self {
            QueryErrorKind::ReadonlyViolation => "readonly_violation".to_owned(),
            QueryErrorKind::Syntax => "syntax".to_owned(),
            QueryErrorKind::Runtime => "runtime".to_owned(),
            QueryErrorKind::Timeout => "timeout".to_owned(),
        }
    }
}

/// The report of a failure in an answer.
#[derive(Debug)]
pub struct ApiError {
    pub code: String,
    pub message: String,
    /// The kind of failure of a query.
    pub subkind: Option<String>,
}

/// What an answer says of a failed operation.
pub open spec fn failure_message(operation: Operation) -> Seq<char> {
    match operation {
        Operation::Query => "Failed to query database"@,
        Operation::UpsertRows => "Failed to upsert database rows"@,
        Operation::ListRows => "Failed to list database rows"@,
    }
}

/// The kind that the report of a failure names: that of a failed query, and
/// none otherwise.
pub open spec fn failure_subkind(failure: WorkerFailure) -> Option<Seq<char>> {
    match failure {
        WorkerFailure::Query(kind) => Some(kind.name()),
        _ => None,
    }
}

pub open spec fn subkind_view(subkind: Option<String>) -> Option<Seq<char>> {
    match subkind {
        Some(text) => Some(text@),
        None => None,
    }
}

/// The answer to a request that failed: always the status of an internal
/// error, whatever failed.
pub fn error_response(operation: Operation, failure: WorkerFailure) -> (reply: (u16, ApiError))
    ensures
        reply.0 == STATUS_INTERNAL_SERVER_ERROR,
        reply.1.code@ == "internal_server_error"@,
        reply.1.message@ == failure_message(operation),
        subkind_view(reply.1.subkind) == failure_subkind(failure),
{
    let message = match operation {
        Operation::Query => "Failed to query database".to_owned(),
        Operation::UpsertRows => "Failed to upsert database rows".to_owned(),
        Operation::ListRows => "Failed to list database rows".to_owned(),
    };
    let subkind = match failure {
        WorkerFailure::Query(kind) => Some(kind.to_string()),
        _ => None,
    };
    (
        STATUS_INTERNAL_SERVER_ERROR,
        ApiError { code: "internal_server_error".to_owned(), message, subkind },
    )
}

/// The page that a listing asks for: one only where both the limit and the
/// offset are given.
pub fn limit_offset(limit: Option<usize>, offset: Option<usize>) -> (page: Option<(usize, usize)>)
    ensures
        page == match (limit, offset) {
            (Some(l), Some(o)) => Some((l, o)),
            _ => None,
        },
{
    match (limit, offset) {
        (Some(l), Some(o)) => Some((l, o)),
        _ => None,
    }
}

/// Whether an upsert truncates: not unless it says so.
pub fn truncate_or_default(truncate: Option<bool>) -> (truncates: bool)
    ensures
        truncates == match truncate {
            Some(t) => t,
            None => false,
        },
{
    match truncate {
        Some(t) => t,
        None => false,
    }
}

/// Serves an upsert against the store in memory: the engine of the database
/// is dropped, then the rows are written. When this returns, no request
/// finds an engine from before the upsert.
pub fn upsert_rows(
    registry: &mut DatabaseRegistry,
    store: &mut MemoryDatabasesStore,
    database_id: &str,
    table_id: &str,
    rows: &Vec<DatabaseRow>,
    truncate: Option<bool>,
)
    requires
        old(registry).wf(),
        old(store).wf(),
    ensures
        final(registry).wf(),
        final(store).wf(),
        final(registry)@ == invalidate_step(old(registry)@, database_id@),
        !final(registry)@.entries.contains_key(database_id@),
        final(store)@ == upsert_step(
            old(store)@,
            database_id@,
            table_id@,
            row_views(rows@),
            match truncate {
                Some(t) => t,
                None => false,
            },
        ),
{
    registry.invalidate(database_id);
    store.batch_upsert(database_id, table_id, rows, truncate_or_default(truncate));
}

/// A query after an upsert sees the rows of the upsert. Take an upsert and
/// the next request for the database that the registry admits. That
/// request is told to build the engine anew, and the build, which reads the
/// rows of the database from the store, fills each table from the contents
/// of the rows that the table holds after the upsert, in their order. Where
/// the upsert truncates, and its rows have distinct ids and carry the id of
/// their table, these are exactly the rows that were written.
pub proof fn lemma_query_after_upsert_sees_its_rows(
    registry: RegistryView,
    store: StoreView,
    database_id: Seq<char>,
    table_id: Seq<char>,
    rows: Seq<RowView>,
    truncate: bool,
    listed: Seq<RowView>,
    now: u64,
)
    requires
        admits(invalidate_step(registry, database_id), database_id),
        forall|table: Seq<char>| #[trigger]
            rows_of_table(listed, table) == rows_at(
                upsert_step(store, database_id, table_id, rows, truncate),
                database_id,
                table,
            ),
    ensures
        lookup_step(invalidate_step(registry, database_id), database_id, now).1 == (Lookup::Build {
            ticket: registry.next_ticket,
        }),
        forall|table: Seq<char>| #[trigger]
            contents_for(listed, table) == rows_at(
                upsert_step(store, database_id, table_id, rows, truncate),
                database_id,
                table,
            ).map_values(|row: RowView| row.content),
        truncate && distinct_rows(rows) && (forall|i: int|
            0 <= i < rows.len() ==> (#[trigger] rows[i]).table_id == table_id) ==> contents_for(
            listed,
            table_id,
        ) == rows.map_values(|row: RowView| row.content),
{
    assert forall|table: Seq<char>| #[trigger]
        contents_for(listed, table) == rows_at(
            upsert_step(store, database_id, table_id, rows, truncate),
            database_id,
            table,
        ).map_values(|row: RowView| row.content) by {
        lemma_contents_of_table_rows(listed, table);
        assert(rows_of_table(listed, table) == rows_at(
            upsert_step(store, database_id, table_id, rows, truncate),
            database_id,
            table,
        ));
    }
    if truncate && distinct_rows(rows) && (forall|i: int|
        0 <= i < rows.len() ==> (#[trigger] rows[i]).table_id == table_id) {
        lemma_truncating_upsert_round_trip(store, database_id, table_id, rows);
        lemma_contents_of_table_rows(listed, table_id);
        assert(rows_of_table(listed, table_id) == rows);
    }
}

} // verus!
