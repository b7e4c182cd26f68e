use dust::databases::database::{
    Database, DatabaseError, DatabaseRow, DatabaseTable, DatabaseType,
};
use dust::databases::row_content::{Field, RowContent, RowValue};
use dust::databases::table_schema::ColumnType;

fn content(fields: Vec<(&str, RowValue)>) -> RowContent {
    RowContent::new(
        fields
            .into_iter()
            .map(|(key, value)| Field { key: key.to_string(), value })
            .collect(),
    )
}

fn table(id: &str) -> DatabaseTable {
    DatabaseTable::new(1, "db", id, id, "a table")
}

#[test]
fn getters_give_back_what_the_constructors_took() {
    let database = Database::new(7, "ds", "db", "main");
    assert_eq!(database.created(), 7);
    assert_eq!(database.data_source_id(), "ds");
    assert_eq!(database.database_id(), "db");
    assert_eq!(database.name(), "main");
    assert_eq!(database.db_type(), DatabaseType::LOCAL);
    let t = DatabaseTable::new(8, "db", "t", "people", "all the people");
    assert_eq!(t.created(), 8);
    assert_eq!(t.database_id(), "db");
    assert_eq!(t.table_id(), "t");
    assert_eq!(t.name(), "people");
    assert_eq!(t.description(), "all the people");
    let copy = t.clone();
    assert_eq!(copy.table_id(), "t");
    assert_eq!(copy.description(), "all the people");
    let c = content(vec![("a", RowValue::Int(1))]);
    let row = DatabaseRow::new(9, "t", "r", &c);
    assert_eq!(row.created(), 9);
    assert_eq!(row.table_id(), "t");
    assert_eq!(row.row_id(), "r");
    assert_eq!(row.content().fields.len(), 1);
    assert_eq!(row.content().fields[0].key, "a");
    let moved = row.in_table("u");
    assert_eq!(moved.table_id(), "u");
    assert_eq!(moved.row_id(), "r");
    assert!(moved.same_row_id(&row));
    assert!(!moved.same_row_id(&DatabaseRow::new(9, "t", "other", &c)));
}

#[test]
fn database_types_are_named_in_lower_case() {
    assert_eq!(DatabaseType::LOCAL.to_string(), "local");
    assert_eq!(DatabaseType::REMOTE.to_string(), "remote");
}

#[test]
fn an_empty_database_has_an_empty_schema() {
    let database = Database::new(0, "ds", "db", "main");
    let schema = database.get_schema(&vec![], &vec![]).unwrap();
    assert!(schema.tables().is_empty());
    assert!(schema.get("t").is_none());
}

#[test]
fn rows_are_grouped_by_table_and_tables_without_rows_have_no_columns() {
    let database = Database::new(0, "ds", "db", "main");
    let tables = vec![table("people"), table("empty"), table("things")];
    let rows = vec![
        DatabaseRow::new(1, "things", "1", &content(vec![("weight", RowValue::Real("1.5".to_string()))])),
        DatabaseRow::new(1, "people", "1", &content(vec![("name", RowValue::Text("a".to_string()))])),
        DatabaseRow::new(1, "things", "2", &content(vec![("weight", RowValue::Int(2))])),
        DatabaseRow::new(1, "people", "2", &content(vec![("name", RowValue::Null), ("age", RowValue::Int(3))])),
    ];
    let schema = database.get_schema(&tables, &rows).unwrap();
    let ids: Vec<&str> = schema.tables().iter().map(|e| e.table().table_id()).collect();
    assert_eq!(ids, vec!["people", "empty", "things"]);
    let people = schema.get("people").unwrap();
    let columns: Vec<(String, ColumnType, bool)> = people
        .schema()
        .columns()
        .iter()
        .map(|c| (c.name.clone(), c.column_type, c.nullable))
        .collect();
    assert_eq!(
        columns,
        vec![
            ("name".to_string(), ColumnType::Text, true),
            ("age".to_string(), ColumnType::Int, false),
        ]
    );
    assert!(schema.get("empty").unwrap().schema().is_empty());
    let things = schema.get("things").unwrap().schema().columns();
    assert_eq!(things.len(), 1);
    assert_eq!(things[0].column_type, ColumnType::Real);
    assert!(!things[0].nullable);
    assert!(schema.get("nothing").is_none());
}

#[test]
fn of_two_tables_with_one_id_the_first_is_kept() {
    let database = Database::new(0, "ds", "db", "main");
    let tables = vec![
        DatabaseTable::new(1, "db", "t", "first", ""),
        DatabaseTable::new(2, "db", "t", "second", ""),
    ];
    let schema = database.get_schema(&tables, &vec![]).unwrap();
    assert_eq!(schema.tables().len(), 1);
    assert_eq!(schema.get("t").unwrap().table().name(), "first");
}

#[test]
fn a_row_of_an_unknown_table_is_refused() {
    let database = Database::new(0, "ds", "db", "main");
    let rows = vec![DatabaseRow::new(1, "ghost", "1", &content(vec![]))];
    assert_eq!(
        database.get_schema(&vec![table("people")], &rows).err(),
        Some(DatabaseError::UnknownTable)
    );
}

#[test]
fn a_remote_database_has_no_schema() {
    let database = Database::with_type(0, "ds", "db", "main", DatabaseType::REMOTE);
    assert_eq!(database.db_type(), DatabaseType::REMOTE);
    assert_eq!(
        database.get_schema(&vec![], &vec![]).err(),
        Some(DatabaseError::RemoteNotImplemented)
    );
    assert_eq!(
        database.get_schema(&vec![table("t")], &vec![DatabaseRow::new(1, "ghost", "1", &content(vec![]))]).err(),
        Some(DatabaseError::RemoteNotImplemented)
    );
}
