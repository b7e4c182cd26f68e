use dust::databases::database::{Database, DatabaseRow, DatabaseTable};
use dust::databases::row_content::{Field, RowContent, RowValue};
use dust::sqlite_workers::databases_store::{
    after_failure, MemoryDatabasesStore, Retry, INITIAL_BACKOFF_MS, MAX_ATTEMPTS, MAX_BACKOFF_MS,
};
use dust::sqlite_workers::registry::{BuildOutcome, DatabaseRegistry, Lookup};

fn row(table: &str, id: &str, a: i64) -> DatabaseRow {
    let content = RowContent::new(vec![Field { key: "a".to_string(), value: RowValue::Int(a) }]);
    DatabaseRow::new(1, table, id, &content)
}

fn ids(rows: &[DatabaseRow]) -> Vec<(String, String, i64)> {
    rows.iter()
        .map(|r| {
            let a = match r.content().fields[0].value {
                RowValue::Int(a) => a,
                _ => panic!("not an int"),
            };
            (r.table_id().to_string(), r.row_id().to_string(), a)
        })
        .collect()
}

fn triple(table: &str, id: &str, a: i64) -> (String, String, i64) {
    (table.to_string(), id.to_string(), a)
}

#[test]
fn a_truncating_upsert_is_listed_back_exactly() {
    let mut store = MemoryDatabasesStore::new();
    store.batch_upsert("db", "t", &vec![row("t", "old", 0)], false);
    let rows = vec![row("t", "1", 10), row("t", "2", 20), row("t", "3", 30)];
    store.batch_upsert("db", "t", &rows, true);
    let (listed, total) = store.list_rows("db", "t", None);
    assert_eq!(total, 3);
    assert_eq!(ids(&listed), vec![triple("t", "1", 10), triple("t", "2", 20), triple("t", "3", 30)]);
}

#[test]
fn two_truncating_upserts_of_the_same_rows_leave_what_one_leaves() {
    let rows = vec![row("t", "1", 10), row("t", "2", 20)];
    let mut once = MemoryDatabasesStore::new();
    once.batch_upsert("db", "t", &rows, true);
    let mut twice = MemoryDatabasesStore::new();
    twice.batch_upsert("db", "t", &rows, true);
    twice.batch_upsert("db", "t", &rows, true);
    assert_eq!(ids(&once.list_rows("db", "t", None).0), ids(&twice.list_rows("db", "t", None).0));
    assert_eq!(twice.list_rows("db", "t", None).1, 2);
    assert_eq!(ids(&once.list_rows_all_tables("db")), ids(&twice.list_rows_all_tables("db")));
}

#[test]
fn a_truncating_upsert_of_no_rows_empties_the_table_and_no_other() {
    let mut store = MemoryDatabasesStore::new();
    store.batch_upsert("db", "t", &vec![row("t", "1", 10)], false);
    store.batch_upsert("db", "u", &vec![row("u", "1", 11)], false);
    store.batch_upsert("db", "t", &vec![], true);
    let (listed, total) = store.list_rows("db", "t", None);
    assert_eq!(total, 0);
    assert!(listed.is_empty());
    assert_eq!(ids(&store.list_rows("db", "u", None).0), vec![triple("u", "1", 11)]);
}

#[test]
fn without_truncate_rows_are_replaced_in_place_or_appended() {
    let mut store = MemoryDatabasesStore::new();
    store.batch_upsert("db", "t", &vec![row("t", "1", 10), row("t", "2", 20)], false);
    store.batch_upsert("db", "t", &vec![row("t", "3", 30), row("t", "1", 11)], false);
    let (listed, total) = store.list_rows("db", "t", None);
    assert_eq!(total, 3);
    assert_eq!(ids(&listed), vec![triple("t", "1", 11), triple("t", "2", 20), triple("t", "3", 30)]);
}

#[test]
fn of_two_rows_with_one_id_in_one_upsert_the_later_stays() {
    let mut store = MemoryDatabasesStore::new();
    store.batch_upsert("db", "t", &vec![row("t", "1", 10), row("t", "1", 11)], true);
    let (listed, total) = store.list_rows("db", "t", None);
    assert_eq!(total, 1);
    assert_eq!(ids(&listed), vec![triple("t", "1", 11)]);
}

#[test]
fn rows_take_the_table_into_which_they_are_written() {
    let mut store = MemoryDatabasesStore::new();
    store.batch_upsert("db", "t", &vec![row("elsewhere", "1", 10)], false);
    assert_eq!(ids(&store.list_rows("db", "t", None).0), vec![triple("t", "1", 10)]);
    assert_eq!(store.list_rows("db", "elsewhere", None).1, 0);
}

#[test]
fn pages_are_cut_from_the_rows_and_the_total_counts_all() {
    let mut store = MemoryDatabasesStore::new();
    let rows: Vec<DatabaseRow> = (0..5).map(|i| row("t", &i.to_string(), i)).collect();
    store.batch_upsert("db", "t", &rows, true);
    let page = |limit: usize, offset: usize| {
        let (listed, total) = store.list_rows("db", "t", Some((limit, offset)));
        assert_eq!(total, 5);
        listed.iter().map(|r| r.row_id().to_string()).collect::<Vec<_>>()
    };
    assert_eq!(page(2, 0), vec!["0", "1"]);
    assert_eq!(page(2, 3), vec!["3", "4"]);
    assert_eq!(page(2, 4), vec!["4"]);
    assert_eq!(page(10, 1), vec!["1", "2", "3", "4"]);
    assert_eq!(page(0, 2), Vec::<String>::new());
    assert_eq!(page(3, 5), Vec::<String>::new());
    assert_eq!(page(3, 99), Vec::<String>::new());
    assert_eq!(page(usize::MAX, 1), vec!["1", "2", "3", "4"]);
    assert_eq!(page(usize::MAX, usize::MAX), Vec::<String>::new());
}

#[test]
fn a_table_that_was_never_written_has_no_rows() {
    let store = MemoryDatabasesStore::new();
    let (listed, total) = store.list_rows("db", "t", None);
    assert!(listed.is_empty());
    assert_eq!(total, 0);
    assert!(store.list_rows("db", "t", Some((5, 5))).0.is_empty());
    assert!(store.list_rows_all_tables("db").is_empty());
}

#[test]
fn all_rows_of_a_database_keep_the_order_of_each_table() {
    let mut store = MemoryDatabasesStore::new();
    store.batch_upsert("db", "t", &vec![row("t", "1", 1)], false);
    store.batch_upsert("other", "t", &vec![row("t", "9", 9)], false);
    store.batch_upsert("db", "u", &vec![row("u", "1", 2)], false);
    store.batch_upsert("db", "t", &vec![row("t", "2", 3)], false);
    let all = ids(&store.list_rows_all_tables("db"));
    let of = |table: &str| all.iter().filter(|r| r.0 == table).cloned().collect::<Vec<_>>();
    assert_eq!(all.len(), 3);
    assert_eq!(of("t"), vec![triple("t", "1", 1), triple("t", "2", 3)]);
    assert_eq!(of("u"), vec![triple("u", "1", 2)]);
    assert_eq!(ids(&store.list_rows_all_tables("other")), vec![triple("t", "9", 9)]);
}

#[test]
fn a_passing_failure_is_retried_after_one_then_two_seconds_and_then_no_more() {
    assert_eq!(MAX_ATTEMPTS, 3);
    assert_eq!(INITIAL_BACKOFF_MS, 1_000);
    assert_eq!(MAX_BACKOFF_MS, 8_000);
    assert_eq!(after_failure(1, true), Retry::After { ms: 1_000 });
    assert_eq!(after_failure(2, true), Retry::After { ms: 2_000 });
    assert_eq!(after_failure(3, true), Retry::GiveUp);
    assert_eq!(after_failure(4, true), Retry::GiveUp);
    assert_eq!(after_failure(0, true), Retry::GiveUp);
    assert_eq!(after_failure(u32::MAX, true), Retry::GiveUp);
}

#[test]
fn a_lasting_failure_is_not_retried() {
    assert_eq!(after_failure(1, false), Retry::GiveUp);
    assert_eq!(after_failure(2, false), Retry::GiveUp);
}

fn a_values(registry: &mut DatabaseRegistry, store: &MemoryDatabasesStore, now: u64) -> (u64, Vec<i64>) {
    let handle = match registry.lookup("D", now) {
        Lookup::Build { ticket } => {
            assert_eq!(registry.build_succeeded("D", ticket, now), BuildOutcome::Published { waiters: 0 });
            ticket
        }
        Lookup::Use { handle } => handle,
        other => panic!("unexpected: {:?}", other),
    };
    let rows = store.list_rows_all_tables("D");
    registry.release("D", handle);
    (handle, ids(&rows).into_iter().map(|r| r.2).collect())
}

#[test]
fn a_query_after_an_upsert_sees_the_rows_of_the_upsert() {
    let mut registry = DatabaseRegistry::new();
    let mut store = MemoryDatabasesStore::new();
    store.batch_upsert("D", "t", &vec![row("t", "1", 1)], false);
    registry.invalidate("D");
    let (first, seen) = a_values(&mut registry, &store, 1);
    assert_eq!(seen, vec![1]);
    store.batch_upsert("D", "t", &vec![row("t", "1", 2)], true);
    registry.invalidate("D");
    let (second, seen) = a_values(&mut registry, &store, 2);
    assert_eq!(seen, vec![2]);
    assert_ne!(first, second);
}

#[test]
fn the_schema_of_what_the_store_lists_promotes_int_and_real_to_real() {
    let mut store = MemoryDatabasesStore::new();
    let value = |v: RowValue| RowContent::new(vec![Field { key: "x".to_string(), value: v }]);
    let rows = vec![
        DatabaseRow::new(1, "t", "1", &value(RowValue::Int(1))),
        DatabaseRow::new(1, "t", "2", &value(RowValue::Real("2.5".to_string()))),
        DatabaseRow::new(1, "t", "3", &value(RowValue::Null)),
    ];
    store.batch_upsert("D", "t", &rows, false);
    let database = Database::new(0, "ds", "D", "main");
    let tables = vec![DatabaseTable::new(0, "D", "t", "t", "")];
    let schema = database.get_schema(&tables, &store.list_rows_all_tables("D")).unwrap();
    let columns = schema.get("t").unwrap().schema().columns();
    assert_eq!(columns.len(), 1);
    assert_eq!(columns[0].name, "x");
    assert_eq!(columns[0].column_type, dust::databases::table_schema::ColumnType::Real);
    assert!(columns[0].nullable);
}
