use dust::blocks::block::{BlockType, MapState};
use dust::databases::database::{Database, DatabaseRow, DatabaseTable};
use dust::databases::row_content::{Field, RowContent, RowValue};
use dust::databases::table_schema::{ColumnType, TableSchema};
use dust::deno::script::{call_source, script_source, Timeout, CONSOLE_PRELUDE, DEFAULT_FILENAME};
use dust::sqlite_workers::api::{
    error_response, limit_offset, truncate_or_default, upsert_rows, Operation, QueryErrorKind,
    WorkerFailure, LISTEN_PORT, QUERY_TIMEOUT_MS, STATUS_INTERNAL_SERVER_ERROR, STATUS_OK,
    WELCOME, WORKER_THREADS,
};
use dust::sqlite_workers::databases_store::MemoryDatabasesStore;
use dust::sqlite_workers::registry::{DatabaseRegistry, Lookup};
use dust::sqlite_workers::sqlite_database::{
    coerce, create_table_sql, insert_sql, plan_table, quote_identifier, row_values, SqlValue,
};

fn content(fields: Vec<(&str, RowValue)>) -> RowContent {
    RowContent::new(
        fields
            .into_iter()
            .map(|(key, value)| Field { key: key.to_string(), value })
            .collect(),
    )
}

fn show(value: &SqlValue) -> String {
    format!("{:?}", value)
}

fn stored(value: RowValue, column_type: ColumnType) -> String {
    show(&coerce(&value, column_type))
}

#[test]
fn a_null_stays_null_in_every_column() {
    for t in [ColumnType::Bool, ColumnType::Int, ColumnType::Real, ColumnType::Text] {
        assert_eq!(stored(RowValue::Null, t), "Null");
    }
}

#[test]
fn values_are_stored_as_their_column_asks() {
    assert_eq!(stored(RowValue::Bool(true), ColumnType::Bool), "Integer(1)");
    assert_eq!(stored(RowValue::Bool(false), ColumnType::Bool), "Integer(0)");
    assert_eq!(stored(RowValue::Bool(true), ColumnType::Int), "Integer(1)");
    assert_eq!(stored(RowValue::Bool(true), ColumnType::Real), "Real(\"1\")");
    assert_eq!(stored(RowValue::Bool(false), ColumnType::Text), "Text(\"false\")");
    assert_eq!(stored(RowValue::Bool(true), ColumnType::Text), "Text(\"true\")");
    assert_eq!(stored(RowValue::Int(-5), ColumnType::Int), "Integer(-5)");
    assert_eq!(stored(RowValue::Int(-5), ColumnType::Real), "Real(\"-5\")");
    assert_eq!(stored(RowValue::Int(12), ColumnType::Text), "Text(\"12\")");
    assert_eq!(stored(RowValue::Real("2.5".to_string()), ColumnType::Real), "Real(\"2.5\")");
    assert_eq!(stored(RowValue::Real("2.5".to_string()), ColumnType::Text), "Text(\"2.5\")");
    assert_eq!(stored(RowValue::Text("a".to_string()), ColumnType::Text), "Text(\"a\")");
    assert_eq!(stored(RowValue::Json("[1]".to_string()), ColumnType::Text), "Text(\"[1]\")");
}

#[test]
fn a_value_that_does_not_fit_its_column_is_stored_as_null() {
    assert_eq!(stored(RowValue::Int(1), ColumnType::Bool), "Null");
    assert_eq!(stored(RowValue::Real("1.5".to_string()), ColumnType::Bool), "Null");
    assert_eq!(stored(RowValue::Real("1.5".to_string()), ColumnType::Int), "Null");
    for t in [ColumnType::Bool, ColumnType::Int, ColumnType::Real] {
        assert_eq!(stored(RowValue::Text("a".to_string()), t), "Null");
        assert_eq!(stored(RowValue::Json("{}".to_string()), t), "Null");
    }
}

#[test]
fn a_row_is_stored_in_the_order_of_the_columns() {
    let rows = vec![
        content(vec![("x", RowValue::Int(1)), ("y", RowValue::Text("a".to_string()))]),
        content(vec![("y", RowValue::Null), ("x", RowValue::Real("2.5".to_string())), ("z", RowValue::Bool(true))]),
        content(vec![("x", RowValue::Null)]),
        content(vec![("x", RowValue::Int(1)), ("x", RowValue::Int(2))]),
    ];
    let refs: Vec<&RowContent> = rows.iter().collect();
    let schema = TableSchema::from_rows(&refs);
    let stored: Vec<Vec<String>> = rows
        .iter()
        .map(|r| row_values(r, &schema).iter().map(show).collect())
        .collect();
    assert_eq!(
        stored,
        vec![
            vec!["Real(\"1\")", "Text(\"a\")", "Null"],
            vec!["Real(\"2.5\")", "Null", "Integer(1)"],
            vec!["Null", "Null", "Null"],
            vec!["Real(\"2\")", "Null", "Null"],
        ]
    );
    assert!(row_values(&rows[0], &TableSchema::empty()).is_empty());
}

#[test]
fn a_drifted_row_is_written_with_nulls() {
    let seen = vec![content(vec![("n", RowValue::Int(1))])];
    let refs: Vec<&RowContent> = seen.iter().collect();
    let schema = TableSchema::from_rows(&refs);
    let drifted = content(vec![("n", RowValue::Text("one".to_string())), ("new", RowValue::Int(2))]);
    let values: Vec<String> = row_values(&drifted, &schema).iter().map(show).collect();
    assert_eq!(values, vec!["Null"]);
}

#[test]
fn identifiers_are_quoted_and_their_quotes_doubled() {
    assert_eq!(quote_identifier("people"), "\"people\"");
    assert_eq!(quote_identifier(""), "\"\"");
    assert_eq!(quote_identifier("a\"b"), "\"a\"\"b\"");
    assert_eq!(quote_identifier("\"\""), "\"\"\"\"\"\"");
    assert_eq!(quote_identifier("drop table; --"), "\"drop table; --\"");
    assert_eq!(quote_identifier("é \"ü\""), "\"é \"\"ü\"\"\"");
}

#[test]
fn a_table_is_created_with_its_columns_and_their_types() {
    let rows = vec![content(vec![
        ("i", RowValue::Int(1)),
        ("r", RowValue::Real("1.5".to_string())),
        ("t", RowValue::Text("a".to_string())),
        ("b \"x\"", RowValue::Bool(true)),
    ])];
    let refs: Vec<&RowContent> = rows.iter().collect();
    let schema = TableSchema::from_rows(&refs);
    assert_eq!(
        create_table_sql("my table", &schema).unwrap(),
        "CREATE TABLE \"my table\" (\"i\" INTEGER, \"r\" REAL, \"t\" TEXT, \"b \"\"x\"\"\" BOOLEAN)"
    );
    assert_eq!(
        insert_sql("my table", &schema).unwrap(),
        "INSERT INTO \"my table\" (\"i\", \"r\", \"t\", \"b \"\"x\"\"\") VALUES (?, ?, ?, ?)"
    );
    let one = vec![content(vec![("only", RowValue::Null)])];
    let refs: Vec<&RowContent> = one.iter().collect();
    let schema = TableSchema::from_rows(&refs);
    assert_eq!(create_table_sql("t", &schema).unwrap(), "CREATE TABLE \"t\" (\"only\" TEXT)");
    assert_eq!(insert_sql("t", &schema).unwrap(), "INSERT INTO \"t\" (\"only\") VALUES (?)");
}

#[test]
fn a_table_without_columns_is_not_created() {
    assert_eq!(create_table_sql("t", &TableSchema::empty()), None);
    assert_eq!(insert_sql("t", &TableSchema::empty()), None);
}

#[test]
fn the_worker_listens_on_port_3005_and_welcomes() {
    assert_eq!(LISTEN_PORT, 3005);
    assert_eq!(WORKER_THREADS, 32);
    assert_eq!(QUERY_TIMEOUT_MS, 30_000);
    assert_eq!(WELCOME, "Welcome to SQLite worker.");
    assert_eq!(STATUS_OK, 200);
    assert_eq!(STATUS_INTERNAL_SERVER_ERROR, 500);
}

#[test]
fn every_failure_is_an_internal_server_error() {
    let (status, error) = error_response(Operation::Query, WorkerFailure::Query(QueryErrorKind::ReadonlyViolation));
    assert_eq!(status, 500);
    assert_eq!(error.code, "internal_server_error");
    assert_eq!(error.message, "Failed to query database");
    assert_eq!(error.subkind, Some("readonly_violation".to_string()));
    let (status, error) = error_response(Operation::UpsertRows, WorkerFailure::Storage);
    assert_eq!(status, 500);
    assert_eq!(error.code, "internal_server_error");
    assert_eq!(error.message, "Failed to upsert database rows");
    assert_eq!(error.subkind, None);
    let (status, error) = error_response(Operation::ListRows, WorkerFailure::Storage);
    assert_eq!(status, 500);
    assert_eq!(error.message, "Failed to list database rows");
    let (_, error) = error_response(Operation::Query, WorkerFailure::Materialization);
    assert_eq!(error.subkind, None);
    let (_, error) = error_response(Operation::Query, WorkerFailure::Schema);
    assert_eq!(error.subkind, None);
    assert_eq!(QueryErrorKind::Syntax.to_string(), "syntax");
    assert_eq!(QueryErrorKind::Runtime.to_string(), "runtime");
    assert_eq!(QueryErrorKind::Timeout.to_string(), "timeout");
}

#[test]
fn a_listing_is_paged_only_with_both_a_limit_and_an_offset() {
    assert_eq!(limit_offset(Some(5), Some(10)), Some((5, 10)));
    assert_eq!(limit_offset(Some(5), None), None);
    assert_eq!(limit_offset(None, Some(10)), None);
    assert_eq!(limit_offset(None, None), None);
}

#[test]
fn an_upsert_does_not_truncate_unless_it_says_so() {
    assert!(!truncate_or_default(None));
    assert!(!truncate_or_default(Some(false)));
    assert!(truncate_or_default(Some(true)));
}

#[test]
fn an_upsert_drops_the_engine_and_writes_the_rows() {
    let mut registry = DatabaseRegistry::new();
    let mut store = MemoryDatabasesStore::new();
    let row = |id: &str, a: i64| DatabaseRow::new(1, "t", id, &content(vec![("a", RowValue::Int(a))]));
    upsert_rows(&mut registry, &mut store, "D", "t", &vec![row("1", 1)], None);
    assert_eq!(registry.lookup("D", 1), Lookup::Build { ticket: 0 });
    registry.build_succeeded("D", 0, 1);
    registry.release("D", 0);
    upsert_rows(&mut registry, &mut store, "D", "t", &vec![row("2", 2)], None);
    assert_eq!(registry.state_of("D"), None);
    assert_eq!(store.list_rows("D", "t", None).1, 2);
    upsert_rows(&mut registry, &mut store, "D", "t", &vec![row("3", 3)], Some(true));
    let (rows, total) = store.list_rows("D", "t", None);
    assert_eq!(total, 1);
    assert_eq!(rows[0].row_id(), "3");
    assert_eq!(registry.lookup("D", 2), Lookup::Build { ticket: 1 });
}

#[test]
fn the_code_of_a_block_gets_a_console_before_it() {
    assert_eq!(DEFAULT_FILENAME, "code_block.js");
    let source = script_source("_fun = (env) => 1;");
    assert!(source.starts_with("let __rust_logs = [];"));
    assert!(source.ends_with("} };_fun = (env) => 1;"));
    assert_eq!(source, format!("{}{}", CONSOLE_PRELUDE, "_fun = (env) => 1;"));
    assert_eq!(script_source(""), CONSOLE_PRELUDE);
}

#[test]
fn a_call_awaits_an_asynchronous_function_and_hands_back_result_and_logs() {
    let source = call_source("_fun", "{\"a\":1}");
    let squeezed: String = source.split_whitespace().collect::<Vec<_>>().join(" ");
    assert_eq!(
        squeezed,
        "(async () => { let __rust_result = _fun.constructor.name === 'AsyncFunction' ? await _fun({\"a\":1}) : _fun({\"a\":1}); if (typeof __rust_result === 'undefined') __rust_result = null; Deno.core.ops.op_return(JSON.stringify({value: __rust_result, logs: __rust_logs})); })()"
    );
}

#[test]
fn a_timeout_is_set_once_and_not_to_nothing() {
    assert_eq!(Timeout::unset().millis, None);
    assert_eq!(Timeout::unset().with_timeout(10_000).millis, Some(10_000));
    assert_eq!(Timeout::unset().try_with_timeout(10_000), Some(Timeout { millis: Some(10_000) }));
    assert_eq!(Timeout::unset().try_with_timeout(0), None);
    assert_eq!(Timeout { millis: Some(5) }.try_with_timeout(10), None);
}

#[test]
fn a_chat_block_has_a_type_of_its_own() {
    assert_eq!(BlockType::Chat.to_string(), "chat");
    let state = MapState { name: "m".to_string(), iteration: 0 };
    assert_eq!(state.clone().iteration, 0);
}

#[test]
fn an_engine_is_planned_table_by_table() {
    let mut store = MemoryDatabasesStore::new();
    let row = |table: &str, id: &str, value: RowValue| {
        DatabaseRow::new(1, table, id, &content(vec![("v", value)]))
    };
    store.batch_upsert("D", "numbers", &vec![row("numbers", "1", RowValue::Int(1)), row("numbers", "2", RowValue::Real("2.5".to_string()))], false);
    store.batch_upsert("D", "words", &vec![row("words", "1", RowValue::Text("a".to_string()))], false);
    store.batch_upsert("D", "nothing", &vec![], false);
    store.batch_upsert("E", "elsewhere", &vec![row("elsewhere", "1", RowValue::Null)], false);
    assert_eq!(
        store.list_tables("D", None),
        (vec!["numbers".to_string(), "words".to_string(), "nothing".to_string()], 3)
    );
    assert_eq!(store.list_tables("D", Some((1, 1))), (vec!["words".to_string()], 3));
    assert_eq!(store.list_tables("D", Some((5, 2))), (vec!["nothing".to_string()], 3));
    assert_eq!(store.list_tables("D", Some((0, 0))), (vec![], 3));
    assert_eq!(store.list_tables("D", Some((2, 9))), (vec![], 3));
    assert_eq!(store.list_tables("E", None), (vec!["elsewhere".to_string()], 1));
    assert_eq!(store.list_tables("F", None), (vec![], 0));
    let tables: Vec<DatabaseTable> = ["numbers", "words", "nothing"]
        .iter()
        .map(|id| DatabaseTable::new(0, "D", id, &format!("the {}", id), ""))
        .collect();
    let rows = store.list_rows_all_tables("D");
    let schema = Database::new(0, "ds", "D", "main").get_schema(&tables, &rows).unwrap();
    let plans: Vec<_> = schema.tables().iter().map(|entry| plan_table(entry, &rows)).collect();
    assert_eq!(plans.len(), 3);
    assert_eq!(plans[0].create, Some("CREATE TABLE \"the numbers\" (\"v\" REAL)".to_string()));
    assert_eq!(plans[0].insert, Some("INSERT INTO \"the numbers\" (\"v\") VALUES (?)".to_string()));
    let stored: Vec<Vec<String>> = plans[0].rows.iter().map(|r| r.iter().map(show).collect()).collect();
    assert_eq!(stored, vec![vec!["Real(\"1\")"], vec!["Real(\"2.5\")"]]);
    assert_eq!(plans[1].create, Some("CREATE TABLE \"the words\" (\"v\" TEXT)".to_string()));
    assert_eq!(plans[1].rows.len(), 1);
    assert_eq!(show(&plans[1].rows[0][0]), "Text(\"a\")");
    assert_eq!(plans[2].create, None);
    assert_eq!(plans[2].insert, None);
    assert!(plans[2].rows.is_empty());
}
