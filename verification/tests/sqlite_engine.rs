use dust::databases::database::{Database, DatabaseRow, DatabaseTable};
use dust::databases::row_content::{Field, RowContent, RowValue};
use dust::sqlite_workers::api::QueryErrorKind;
use dust::sqlite_workers::databases_store::MemoryDatabasesStore;
use dust::sqlite_workers::registry::{BuildOutcome, DatabaseRegistry, Lookup};
use dust::sqlite_workers::sqlite_database::{
    plan_table, query_check, query_result, MaterializationError, QueryRows, SqlValue,
    SqliteDatabase, TablePlan,
};

fn content(fields: Vec<(&str, RowValue)>) -> RowContent {
    RowContent::new(
        fields
            .into_iter()
            .map(|(key, value)| Field { key: key.to_string(), value })
            .collect(),
    )
}

fn row(table: &str, id: &str, fields: Vec<(&str, RowValue)>) -> DatabaseRow {
    DatabaseRow::new(1, table, id, &content(fields))
}

fn engine(store: &MemoryDatabasesStore, database_id: &str) -> SqliteDatabase {
    let rows = store.list_rows_all_tables(database_id);
    let tables: Vec<DatabaseTable> = store
        .list_tables(database_id, None)
        .0
        .iter()
        .map(|id| DatabaseTable::new(0, database_id, id, id, ""))
        .collect();
    let schema = Database::new(0, "ds", database_id, database_id)
        .get_schema(&tables, &rows)
        .unwrap();
    let plans: Vec<TablePlan> = schema.tables().iter().map(|e| plan_table(e, &rows)).collect();
    SqliteDatabase::materialize(&plans).unwrap()
}

fn shown(result: &QueryRows) -> Vec<Vec<(String, String)>> {
    result
        .rows
        .iter()
        .map(|r| {
            result
                .columns
                .iter()
                .zip(r.iter())
                .map(|(c, v)| (c.clone(), format!("{:?}", v)))
                .collect()
        })
        .collect()
}

fn cell(column: &str, value: &str) -> (String, String) {
    (column.to_string(), value.to_string())
}

#[test]
fn a_query_on_an_empty_database_gives_no_rows_and_no_error() {
    let db = SqliteDatabase::materialize(&vec![]).unwrap();
    let result = db.query("SELECT name FROM sqlite_master").unwrap();
    assert!(result.rows.is_empty());
    let db = engine(&MemoryDatabasesStore::new(), "D");
    assert!(db.query("SELECT name FROM sqlite_master").unwrap().rows.is_empty());
}

#[test]
fn ten_queries_on_a_cold_database_build_one_engine_and_all_see_one() {
    let mut registry = DatabaseRegistry::new();
    let store = MemoryDatabasesStore::new();
    let mut built: Vec<(u64, SqliteDatabase)> = Vec::new();
    let mut tickets = Vec::new();
    for now in 0..10u64 {
        match registry.lookup("D", now) {
            Lookup::Build { ticket } => {
                built.push((ticket, engine(&store, "D")));
                tickets.push(ticket);
            }
            Lookup::Wait { ticket } => tickets.push(ticket),
            other => panic!("unexpected: {:?}", other),
        }
    }
    assert_eq!(built.len(), 1);
    assert_eq!(registry.build_succeeded("D", built[0].0, 10), BuildOutcome::Published { waiters: 9 });
    for ticket in tickets {
        assert_eq!(ticket, built[0].0);
        let result = built[0].1.query("SELECT 1").unwrap();
        assert_eq!(shown(&result), vec![vec![cell("1", "Integer(1)")]]);
        registry.release("D", ticket);
    }
    assert_eq!(registry.inflight(), 0);
}

#[test]
fn a_query_after_a_truncating_upsert_sees_the_new_row() {
    let mut store = MemoryDatabasesStore::new();
    store.batch_upsert("D", "t", &vec![row("t", "1", vec![("a", RowValue::Int(1))])], false);
    let db = engine(&store, "D");
    assert_eq!(shown(&db.query("SELECT a FROM t").unwrap()), vec![vec![cell("a", "Integer(1)")]]);
    store.batch_upsert("D", "t", &vec![row("t", "1", vec![("a", RowValue::Int(2))])], true);
    let db = engine(&store, "D");
    assert_eq!(shown(&db.query("SELECT a FROM t").unwrap()), vec![vec![cell("a", "Integer(2)")]]);
}

#[test]
fn int_real_and_null_are_stored_as_real() {
    let mut store = MemoryDatabasesStore::new();
    store.batch_upsert(
        "D",
        "t",
        &vec![
            row("t", "1", vec![("x", RowValue::Int(1))]),
            row("t", "2", vec![("x", RowValue::Real("2.5".to_string()))]),
            row("t", "3", vec![("x", RowValue::Null)]),
        ],
        false,
    );
    let db = engine(&store, "D");
    let result = db.query("SELECT typeof(x) FROM t LIMIT 1").unwrap();
    assert_eq!(shown(&result), vec![vec![cell("typeof(x)", "Text(\"real\")")]]);
    let all = db.query("SELECT x, typeof(x) AS kind FROM t ORDER BY rowid").unwrap();
    assert_eq!(
        shown(&all),
        vec![
            vec![cell("x", "Real(\"1\")"), cell("kind", "Text(\"real\")")],
            vec![cell("x", "Real(\"2.5\")"), cell("kind", "Text(\"real\")")],
            vec![cell("x", "Null"), cell("kind", "Text(\"null\")")],
        ]
    );
}

#[test]
fn a_statement_that_would_write_is_refused_and_changes_nothing() {
    let mut store = MemoryDatabasesStore::new();
    store.batch_upsert(
        "D",
        "t",
        &vec![row("t", "1", vec![("a", RowValue::Int(1))]), row("t", "2", vec![("a", RowValue::Int(2))])],
        false,
    );
    let db = engine(&store, "D");
    let count = |db: &SqliteDatabase| shown(&db.query("SELECT count(*) FROM t").unwrap());
    assert_eq!(count(&db), vec![vec![cell("count(*)", "Integer(2)")]]);
    for sql in [
        "DELETE FROM t",
        "INSERT INTO t (a) VALUES (3)",
        "UPDATE t SET a = 0",
        "DROP TABLE t",
        "CREATE TABLE u (a INTEGER)",
    ] {
        assert_eq!(db.query(sql).err(), Some(QueryErrorKind::ReadonlyViolation), "{}", sql);
    }
    assert_eq!(count(&db), vec![vec![cell("count(*)", "Integer(2)")]]);
    assert!(db.query("SELECT a FROM u").is_err());
}

#[test]
fn a_statement_that_the_engine_does_not_take_is_a_syntax_error() {
    let db = SqliteDatabase::materialize(&vec![]).unwrap();
    assert_eq!(db.query("SELEC 1").err(), Some(QueryErrorKind::Syntax));
    assert_eq!(db.query("SELECT a FROM missing").err(), Some(QueryErrorKind::Syntax));
}

#[test]
fn an_empty_statement_gives_no_result() {
    let db = SqliteDatabase::materialize(&vec![]).unwrap();
    assert_eq!(db.query("").err(), Some(QueryErrorKind::Runtime));
}

#[test]
fn a_statement_that_breaks_while_it_runs_fails_at_run_time() {
    let db = SqliteDatabase::materialize(&vec![]).unwrap();
    assert_eq!(
        db.query("SELECT abs(-9223372036854775808)").err(),
        Some(QueryErrorKind::Runtime)
    );
}

#[test]
fn what_the_engine_says_of_a_statement_decides_whether_it_runs() {
    assert_eq!(query_check(None), Err(QueryErrorKind::Syntax));
    assert_eq!(query_check(Some(false)), Err(QueryErrorKind::ReadonlyViolation));
    assert_eq!(query_check(Some(true)), Ok(()));
    let result = query_result(Some(vec!["a".to_string()]), Some(vec![vec![SqlValue::Integer(1)]])).unwrap();
    assert_eq!(result.columns, vec!["a"]);
    assert_eq!(format!("{:?}", result.rows), "[[Integer(1)]]");
    assert_eq!(query_result(None, Some(vec![])).err(), Some(QueryErrorKind::Runtime));
    assert_eq!(query_result(Some(vec![]), None).err(), Some(QueryErrorKind::Runtime));
    assert_eq!(query_result(None, None).err(), Some(QueryErrorKind::Runtime));
}

#[test]
fn values_come_back_as_they_were_stored() {
    let mut store = MemoryDatabasesStore::new();
    store.batch_upsert(
        "D",
        "my \"table\"",
        &vec![row(
            "my \"table\"",
            "1",
            vec![
                ("i", RowValue::Int(-7)),
                ("b", RowValue::Bool(true)),
                ("r", RowValue::Real("0.25".to_string())),
                ("t", RowValue::Text("it's".to_string())),
                ("j", RowValue::Json("{\"k\":[1]}".to_string())),
                ("n", RowValue::Null),
            ],
        )],
        false,
    );
    let db = engine(&store, "D");
    let result = db.query("SELECT i, b, r, t, j, n, x'00ff' AS bytes FROM \"my \"\"table\"\"\"").unwrap();
    assert_eq!(
        shown(&result),
        vec![vec![
            cell("i", "Integer(-7)"),
            cell("b", "Integer(1)"),
            cell("r", "Real(\"0.25\")"),
            cell("t", "Text(\"it's\")"),
            cell("j", "Text(\"{\\\"k\\\":[1]}\")"),
            cell("n", "Null"),
            cell("bytes", "Blob([0, 255])"),
        ]]
    );
}

#[test]
fn a_plan_that_the_engine_refuses_fails_the_build_where_it_breaks() {
    let bad_create = TablePlan {
        create: Some("CREATE TABLE".to_string()),
        insert: None,
        rows: vec![],
    };
    assert_eq!(
        SqliteDatabase::materialize(&vec![bad_create]).err(),
        Some(MaterializationError::CreateFailed(0))
    );
    let good = || TablePlan {
        create: Some("CREATE TABLE \"t\" (\"a\" INTEGER)".to_string()),
        insert: Some("INSERT INTO \"t\" (\"a\") VALUES (?)".to_string()),
        rows: vec![vec![SqlValue::Integer(1)]],
    };
    let bad_row = TablePlan {
        create: Some("CREATE TABLE \"u\" (\"a\" INTEGER)".to_string()),
        insert: Some("INSERT INTO \"u\" (\"a\") VALUES (?)".to_string()),
        rows: vec![vec![SqlValue::Integer(1)], vec![SqlValue::Integer(1), SqlValue::Integer(2)]],
    };
    assert_eq!(
        SqliteDatabase::materialize(&vec![good(), bad_row]).err(),
        Some(MaterializationError::InsertFailed(1, 1))
    );
    assert!(SqliteDatabase::materialize(&vec![good()]).is_ok());
}
