use dust::databases::row_content::{Field, RowContent, RowValue, ValueKind};
use dust::databases::table_schema::{ColumnType, TableSchema};

fn field(key: &str, value: RowValue) -> Field {
    Field { key: key.to_string(), value }
}

fn row(fields: Vec<Field>) -> RowContent {
    RowContent::new(fields)
}

fn describe(schema: &TableSchema) -> Vec<(String, ColumnType, bool)> {
    schema
        .columns()
        .iter()
        .map(|c| (c.name.clone(), c.column_type, c.nullable))
        .collect()
}

fn infer(rows: &[RowContent]) -> Vec<(String, ColumnType, bool)> {
    let refs: Vec<&RowContent> = rows.iter().collect();
    describe(&TableSchema::from_rows(&refs))
}

#[test]
fn int_real_and_null_give_a_nullable_real() {
    let rows = vec![
        row(vec![field("x", RowValue::Int(1))]),
        row(vec![field("x", RowValue::Real("2.0".to_string()))]),
        row(vec![field("x", RowValue::Null)]),
    ];
    assert_eq!(infer(&rows), vec![("x".to_string(), ColumnType::Real, true)]);
}

#[test]
fn bool_and_int_give_an_int_that_is_not_nullable() {
    let rows = vec![
        row(vec![field("x", RowValue::Bool(true))]),
        row(vec![field("x", RowValue::Int(1))]),
    ];
    assert_eq!(infer(&rows), vec![("x".to_string(), ColumnType::Int, false)]);
}

#[test]
fn text_and_int_give_a_text_that_is_not_nullable() {
    let rows = vec![
        row(vec![field("x", RowValue::Text("a".to_string()))]),
        row(vec![field("x", RowValue::Int(1))]),
    ];
    assert_eq!(infer(&rows), vec![("x".to_string(), ColumnType::Text, false)]);
}

#[test]
fn only_nulls_give_a_nullable_text() {
    let rows = vec![
        row(vec![field("x", RowValue::Null)]),
        row(vec![field("x", RowValue::Null)]),
    ];
    assert_eq!(infer(&rows), vec![("x".to_string(), ColumnType::Text, true)]);
}

#[test]
fn no_rows_give_no_columns() {
    assert_eq!(infer(&[]), vec![]);
    assert!(TableSchema::empty().is_empty());
    assert_eq!(describe(&TableSchema::empty()), vec![]);
}

#[test]
fn bools_alone_stay_bool_and_ints_alone_stay_int() {
    let rows = vec![
        row(vec![field("b", RowValue::Bool(true)), field("i", RowValue::Int(7))]),
        row(vec![field("b", RowValue::Bool(false)), field("i", RowValue::Int(-7))]),
    ];
    assert_eq!(
        infer(&rows),
        vec![
            ("b".to_string(), ColumnType::Bool, false),
            ("i".to_string(), ColumnType::Int, false),
        ]
    );
}

#[test]
fn bool_and_real_give_a_real() {
    let rows = vec![
        row(vec![field("x", RowValue::Bool(true))]),
        row(vec![field("x", RowValue::Real("0.5".to_string()))]),
    ];
    assert_eq!(infer(&rows), vec![("x".to_string(), ColumnType::Real, false)]);
}

#[test]
fn arrays_and_objects_count_as_text() {
    let rows = vec![
        row(vec![field("x", RowValue::Int(1)), field("y", RowValue::Json("{}".to_string()))]),
        row(vec![field("x", RowValue::Json("[1,2]".to_string()))]),
    ];
    assert_eq!(
        infer(&rows),
        vec![
            ("x".to_string(), ColumnType::Text, false),
            ("y".to_string(), ColumnType::Text, false),
        ]
    );
    assert_eq!(RowValue::Json("[]".to_string()).kind(), ValueKind::Text);
}

#[test]
fn columns_come_in_the_order_of_first_appearance() {
    let rows = vec![
        row(vec![field("b", RowValue::Int(1)), field("a", RowValue::Int(2))]),
        row(vec![field("c", RowValue::Null), field("a", RowValue::Null)]),
    ];
    assert_eq!(
        infer(&rows),
        vec![
            ("b".to_string(), ColumnType::Int, false),
            ("a".to_string(), ColumnType::Int, true),
            ("c".to_string(), ColumnType::Text, true),
        ]
    );
}

#[test]
fn rows_in_another_order_with_the_same_first_keys_give_the_same_schema() {
    let first = row(vec![field("a", RowValue::Int(1)), field("b", RowValue::Bool(true))]);
    let second = row(vec![field("a", RowValue::Real("1.5".to_string())), field("b", RowValue::Null)]);
    let third = row(vec![field("b", RowValue::Int(3)), field("a", RowValue::Null)]);
    let one = infer(&[first.clone(), second.clone(), third.clone()]);
    let other = infer(&[first.clone(), third.clone(), second.clone()]);
    assert_eq!(one, other);
    assert_eq!(
        one,
        vec![
            ("a".to_string(), ColumnType::Real, true),
            ("b".to_string(), ColumnType::Int, true),
        ]
    );
}

#[test]
fn promotion_follows_the_chain() {
    assert_eq!(ColumnType::Int.promote(ColumnType::Int), ColumnType::Int);
    assert_eq!(ColumnType::Int.promote(ColumnType::Real), ColumnType::Real);
    assert_eq!(ColumnType::Real.promote(ColumnType::Int), ColumnType::Real);
    assert_eq!(ColumnType::Bool.promote(ColumnType::Bool), ColumnType::Bool);
    assert_eq!(ColumnType::Bool.promote(ColumnType::Int), ColumnType::Int);
    assert_eq!(ColumnType::Int.promote(ColumnType::Bool), ColumnType::Int);
    assert_eq!(ColumnType::Text.promote(ColumnType::Bool), ColumnType::Text);
    assert_eq!(ColumnType::Real.promote(ColumnType::Text), ColumnType::Text);
}

#[test]
fn a_key_that_a_row_repeats_counts_each_time() {
    let rows = vec![row(vec![
        field("x", RowValue::Int(1)),
        field("x", RowValue::Text("a".to_string())),
    ])];
    assert_eq!(infer(&rows), vec![("x".to_string(), ColumnType::Text, false)]);
}
