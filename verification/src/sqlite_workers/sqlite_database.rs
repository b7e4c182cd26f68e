//! What an engine is filled with: for each table the statement that creates
//! it, and for each row its values in the order of the columns, each coerced
//! to the type of its column.
//!
//! A value that does not fit the type of its column is written as null: a
//! row that has drifted from the schema does not keep the engine from being
//! built.

use crate::databases::database::{
    contents_for, row_views, rows_of_table, DatabaseRow, DatabaseSchemaTable,
};
use crate::databases::row_content::{Field, FieldView, RowContent, RowValue, RowValueView};
use crate::databases::table_schema::{
    column_of, contents_of, first_keys, inferred_schema, kind_type, lemma_first_keys_contains,
    lemma_observed_in_some_row, observations, observed, ColumnType, ColumnView, InferredColumn,
    TableSchema,
};
use crate::sqlite_workers::api::QueryErrorKind;
use crate::utils::{signed_decimal, signed_decimal_text};
use vstd::prelude::*;
use vstd::string::*;

verus! {

/// A value as the engine stores it. A real number is carried as its text.
#[derive(Debug)]
pub enum SqlValue {
    Null,
    Integer(i64),
    Real(String),
    Text(String),
    /// Bytes, which no row holds but a query may give.
    Blob(Vec<u8>),
}

pub enum SqlValueView {
    Null,
    Integer(i64),
    Real(Seq<char>),
    Text(Seq<char>),
    Blob(Seq<u8>),
}

impl View for SqlValue {
    type V = SqlValueView;

    open spec fn view(&self) -> SqlValueView {
        match self {
            SqlValue::Null => SqlValueView::Null,
            SqlValue::Integer(n) => SqlValueView::Integer(*n),
            SqlValue::Real(text) => SqlValueView::Real(text@),
            SqlValue::Text(text) => SqlValueView::Text(text@),
            SqlValue::Blob(bytes) => SqlValueView::Blob(bytes@),
        }
    }
}

/// A truth value as a number.
pub open spec fn bool_number(b: bool) -> i64 {
    if b {
        1
    } else {
        0
    }
}

/// A truth value as JSON writes it.
pub open spec fn bool_text(b: bool) -> Seq<char> {
    if b {
        "true"@
    } else {
        "false"@
    }
}

/// The value as a column of the given type stores it. A null stays null. A
/// truth value fits every column, a whole number every column but `bool`, a
/// real number the columns `real` and `text`, and a text, an array or an
/// object the column `text` alone; what does not fit becomes null. In a
/// `text` column a text stands as it is and every other value as JSON
/// writes it.
pub open spec fn coerced(value: RowValueView, column_type: ColumnType) -> SqlValueView {
    match (column_type, value) {
        (_, RowValueView::Null) => SqlValueView::Null,
        (ColumnType::Bool, RowValueView::Bool(b)) => SqlValueView::Integer(bool_number(b)),
        (ColumnType::Int, RowValueView::Bool(b)) => SqlValueView::Integer(bool_number(b)),
        (ColumnType::Int, RowValueView::Int(n)) => SqlValueView::Integer(n),
        (ColumnType::Real, RowValueView::Bool(b)) => SqlValueView::Real(
            signed_decimal(bool_number(b) as int),
        ),
        (ColumnType::Real, RowValueView::Int(n)) => SqlValueView::Real(signed_decimal(n as int)),
        (ColumnType::Real, RowValueView::Real(text)) => SqlValueView::Real(text),
        (ColumnType::Text, RowValueView::Bool(b)) => SqlValueView::Text(bool_text(b)),
        (ColumnType::Text, RowValueView::Int(n)) => SqlValueView::Text(signed_decimal(n as int)),
        (ColumnType::Text, RowValueView::Real(text)) => SqlValueView::Text(text),
        (ColumnType::Text, RowValueView::Text(text)) => SqlValueView::Text(text),
        (ColumnType::Text, RowValueView::Json(text)) => SqlValueView::Text(text),
        _ => SqlValueView::Null,
    }
}

/// The value fits a column of the given type.
pub open spec fn fits(value: RowValueView, column_type: ColumnType) -> bool {
    match kind_type(value.kind()) {
        Some(asked) => asked.rank() <= column_type.rank(),
        None => true,
    }
}

/// Coerces a value to the type of its column.
pub fn coerce(value: &RowValue, column_type: ColumnType) -> (stored: SqlValue)
    ensures
        stored@ == coerced(value@, column_type),
{
    match value {
        RowValue::Null => SqlValue::Null,
        RowValue::Bool(b) => {
            let number: i64 = if *b {
                1
            } else {
                0
            };
            match column_type {
                ColumnType::Bool => SqlValue::Integer(number),
                ColumnType::Int => SqlValue::Integer(number),
                ColumnType::Real => SqlValue::Real(signed_decimal_text(number)),
                ColumnType::Text => SqlValue::Text(
                    if *b {
                        "true".to_owned()
                    } else {
                        "false".to_owned()
                    },
                ),
            }
        },
        RowValue::Int(n) => match column_type {
            ColumnType::Bool => SqlValue::Null,
            ColumnType::Int => SqlValue::Integer(*n),
            ColumnType::Real => SqlValue::Real(signed_decimal_text(*n)),
            ColumnType::Text => SqlValue::Text(signed_decimal_text(*n)),
        },
        RowValue::Real(text) => match column_type {
            ColumnType::Real => SqlValue::Real(text.clone()),
            ColumnType::Text => SqlValue::Text(text.clone()),
            _ => SqlValue::Null,
        },
        RowValue::Text(text) => match column_type {
            ColumnType::Text => SqlValue::Text(text.clone()),
            _ => SqlValue::Null,
        },
        RowValue::Json(text) => match column_type {
            ColumnType::Text => SqlValue::Text(text.clone()),
            _ => SqlValue::Null,
        },
    }
}

/// Only a null, or a value that does not fit, is stored as null.
pub proof fn lemma_fitting_value_is_kept(value: RowValueView, column_type: ColumnType)
    requires
        fits(value, column_type),
    ensures
        coerced(value, column_type) is Null <==> value is Null,
{
}

/// The type inferred for a key takes every value that was seen under the
/// key: none of them is lost when the rows from which the schema was
/// inferred are written.
pub proof fn lemma_inferred_type_fits_what_was_seen(obs: Seq<FieldView>, i: int)
    requires
        0 <= i < obs.len(),
    ensures
        fits(obs[i].1, column_of(obs, obs[i].0).column_type),
        coerced(obs[i].1, column_of(obs, obs[i].0).column_type) is Null <==> obs[i].1 is Null,
        obs[i].1 is Null ==> column_of(obs, obs[i].0).nullable,
{
    let key = obs[i].0;
    let kind = obs[i].1.kind();
    assert(observed(obs, key, kind));
}

/// The value that the fields give for a key: that of the last field with
/// the key, and null where there is none.
pub open spec fn value_at(fields: Seq<FieldView>, key: Seq<char>) -> RowValueView
    decreases fields.len(),
{
    if fields.len() == 0 {
        RowValueView::Null
    } else if fields.last().0 == key {
        fields.last().1
    } else {
        value_at(fields.drop_last(), key)
    }
}

/// The values of a row in the order of the columns, as the engine stores
/// them.
pub open spec fn stored_row(fields: Seq<FieldView>, columns: Seq<ColumnView>) -> Seq<SqlValueView> {
    columns.map_values(|column: ColumnView| coerced(value_at(fields, column.name), column.column_type))
}

pub open spec fn sql_views(values: Seq<SqlValue>) -> Seq<SqlValueView> {
    values.map_values(|value: SqlValue| value@)
}

fn stored_value(fields: &Vec<Field>, column: &InferredColumn) -> (stored: SqlValue)
    ensures
        stored@ == coerced(
            value_at(fields@.map_values(|field: Field| field@), column.name@),
            column.column_type,
        ),
{
    let ghost views = fields@.map_values(|field: Field| field@);
    let mut i: usize = fields.len();
    assert(views.take(i as int) =~= views);
    while i > 0
        invariant
            i <= fields@.len(),
            views == fields@.map_values(|field: Field| field@),
            value_at(views, column.name@) == value_at(views.take(i as int), column.name@),
        decreases i,
    {
        proof {
            assert(views.take(i as int).drop_last() =~= views.take(i - 1));
            assert(views.take(i as int).last() == fields@[i - 1]@);
        }
        if fields[i - 1].key == column.name {
            return coerce(&fields[i - 1].value, column.column_type);
        }
        i -= 1;
    }
    assert(views.take(0) =~= Seq::<FieldView>::empty());
    SqlValue::Null
}

/// The values of a row in the order of the columns of a schema.
pub fn row_values(content: &RowContent, schema: &TableSchema) -> (values: Vec<SqlValue>)
    ensures
        sql_views(values@) == stored_row(content@, schema@),
{
    let columns = schema.columns();
    let mut values: Vec<SqlValue> = Vec::new();
    let mut c: usize = 0;
    while c < columns.len()
        invariant
            c <= columns@.len(),
            columns@.map_values(|column: InferredColumn| column@) == schema@,
            values@.len() == c,
            forall|k: int|
                0 <= k < c ==> (#[trigger] values@[k])@ == coerced(
                    value_at(content@, schema@[k].name),
                    schema@[k].column_type,
                ),
        decreases columns@.len() - c,
    {
        assert(schema@[c as int] == columns@[c as int]@);
        values.push(stored_value(&content.fields, &columns[c]));
        c += 1;
    }
    assert(sql_views(values@) =~= stored_row(content@, schema@));
    values
}

/// The name with each double quote in it doubled.
pub open spec fn escaped_quotes(name: Seq<char>) -> Seq<char>
    decreases name.len(),
{
    if name.len() == 0 {
        Seq::empty()
    } else if name.last() == '"' {
        escaped_quotes(name.drop_last()) + "\"\""@
    } else {
        escaped_quotes(name.drop_last()).push(name.last())
    }
}

/// The name as a quoted identifier: between double quotes, with each double
/// quote in it doubled.
pub open spec fn quoted_identifier(name: Seq<char>) -> Seq<char> {
    "\""@ + escaped_quotes(name) + "\""@
}

/// Writes a name as a quoted identifier.
pub fn quote_identifier(name: &str) -> (quoted: String)
    ensures
        quoted@ == quoted_identifier(name@),
{
    let n = name.unicode_len();
    let mut quoted = "\"".to_owned();
    let mut i: usize = 0;
    proof {
        assert(name@.take(0) =~= Seq::<char>::empty());
        assert("\""@ + Seq::<char>::empty() =~= "\""@);
    }
    while i < n
        invariant
            i <= n,
            n == name@.len(),
            quoted@ == "\""@ + escaped_quotes(name@.take(i as int)),
        decreases n - i,
    {
        proof {
            assert(name@.take(i + 1).drop_last() =~= name@.take(i as int));
            assert(name@.take(i + 1).last() == name@[i as int]);
        }
        let ghost before = escaped_quotes(name@.take(i as int));
        if name.get_char(i) == '"' {
            quoted.append("\"\"");
            assert(quoted@ =~= "\""@ + (before + "\"\""@));
        } else {
            quoted.append(name.substring_char(i, i + 1));
            assert(name@.subrange(i as int, i + 1) =~= seq![name@[i as int]]);
            assert(quoted@ =~= "\""@ + before.push(name@[i as int]));
        }
        i += 1;
    }
    assert(name@.take(i as int) =~= name@);
    quoted.append("\"");
    quoted
}

/// The texts with the separator between one and the next.
pub open spec fn joined(items: Seq<Seq<char>>, separator: Seq<char>) -> Seq<char>
    decreases items.len(),
{
    if items.len() == 0 {
        Seq::empty()
    } else if items.len() == 1 {
        items[0]
    } else {
        joined(items.drop_last(), separator) + separator + items.last()
    }
}

fn join(items: &Vec<String>, separator: &str) -> (text: String)
    ensures
        text@ == joined(items@.map_values(|item: String| item@), separator@),
{
    let ghost views = items@.map_values(|item: String| item@);
    let mut text = String::new();
    let mut i: usize = 0;
    assert(views.take(0) =~= Seq::<Seq<char>>::empty());
    while i < items.len()
        invariant
            i <= items@.len(),
            views == items@.map_values(|item: String| item@),
            text@ == joined(views.take(i as int), separator@),
        decreases items@.len() - i,
    {
        proof {
            assert(views.take(i + 1).drop_last() =~= views.take(i as int));
            assert(views.take(i + 1).last() == items@[i as int]@);
            assert(views.take(i + 1)[0] == views[0]);
        }
        if i > 0 {
            text.append(separator);
        } else {
            assert(Seq::<char>::empty() + items@[0]@ =~= items@[0]@);
        }
        text.append(items[i].as_str());
        i += 1;
    }
    assert(views.take(i as int) =~= views);
    text
}

/// The name of a column type in a statement.
pub open spec fn sql_type(column_type: ColumnType) -> Seq<char> {
    match column_type {
        ColumnType::Int => "INTEGER"@,
        ColumnType::Real => "REAL"@,
        ColumnType::Text => "TEXT"@,
        ColumnType::Bool => "BOOLEAN"@,
    }
}

/// A column as a statement declares it: its quoted name and its type.
pub open spec fn column_definition(column: ColumnView) -> Seq<char> {
    quoted_identifier(column.name) + " "@ + sql_type(column.column_type)
}

/// The statement that creates a table with these columns.
pub open spec fn create_table_statement(table_name: Seq<char>, columns: Seq<ColumnView>) -> Seq<
    char,
> {
    "CREATE TABLE "@ + quoted_identifier(table_name) + " ("@ + joined(
        columns.map_values(|column: ColumnView| column_definition(column)),
        ", "@,
    ) + ")"@
}

/// The statement that writes one row into a table with these columns, with
/// a mark in place of each value.
pub open spec fn insert_statement(table_name: Seq<char>, columns: Seq<ColumnView>) -> Seq<char> {
    "INSERT INTO "@ + quoted_identifier(table_name) + " ("@ + joined(
        columns.map_values(|column: ColumnView| quoted_identifier(column.name)),
        ", "@,
    ) + ") VALUES ("@ + joined(columns.map_values(|column: ColumnView| "?"@), ", "@) + ")"@
}

fn sql_type_text(column_type: ColumnType) -> (name: &'static str)
    ensures
        name@ == sql_type(column_type),
{
    match column_type {
        ColumnType::Int => "INTEGER",
        ColumnType::Real => "REAL",
        ColumnType::Text => "TEXT",
        ColumnType::Bool => "BOOLEAN",
    }
}

/// The statement that creates a table with the columns of a schema; none
/// for a schema without columns, since a table must have a column.
pub fn create_table_sql(table_name: &str, schema: &TableSchema) -> (statement: Option<String>)
    ensures
        schema@.len() == 0 ==> statement is None,
        schema@.len() > 0 ==> statement is Some && statement->Some_0@ == create_table_statement(
            table_name@,
            schema@,
        ),
{
    let columns = schema.columns();
    if columns.len() == 0 {
        return None;
    }
    let mut definitions: Vec<String> = Vec::new();
    let mut c: usize = 0;
    while c < columns.len()
        invariant
            c <= columns@.len(),
            columns@.map_values(|column: InferredColumn| column@) == schema@,
            definitions@.len() == c,
            forall|k: int|
                0 <= k < c ==> (#[trigger] definitions@[k])@ == column_definition(schema@[k]),
        decreases columns@.len() - c,
    {
        assert(schema@[c as int] == columns@[c as int]@);
        definitions.push(
            quote_identifier(columns[c].name.as_str()).concat(" ").concat(
                sql_type_text(columns[c].column_type),
            ),
        );
        c += 1;
    }
    assert(definitions@.map_values(|item: String| item@) =~= schema@.map_values(
        |column: ColumnView| column_definition(column),
    ));
    let statement = "CREATE TABLE ".to_owned().concat(quote_identifier(table_name).as_str()).concat(
        " (",
    ).concat(join(&definitions, ", ").as_str()).concat(")");
    Some(statement)
}

/// The statement that writes one row into a table with the columns of a
/// schema; none for a schema without columns.
pub fn insert_sql(table_name: &str, schema: &TableSchema) -> (statement: Option<String>)
    ensures
        schema@.len() == 0 ==> statement is None,
        schema@.len() > 0 ==> statement is Some && statement->Some_0@ == insert_statement(
            table_name@,
            schema@,
        ),
{
    let columns = schema.columns();
    if columns.len() == 0 {
        return None;
    }
    let mut names: Vec<String> = Vec::new();
    let mut marks: Vec<String> = Vec::new();
    let mut c: usize = 0;
    while c < columns.len()
        invariant
            c <= columns@.len(),
            columns@.map_values(|column: InferredColumn| column@) == schema@,
            names@.len() == c,
            marks@.len() == c,
            forall|k: int|
                0 <= k < c ==> (#[trigger] names@[k])@ == quoted_identifier(schema@[k].name),
            forall|k: int| 0 <= k < c ==> (#[trigger] marks@[k])@ == "?"@,
        decreases columns@.len() - c,
    {
        assert(schema@[c as int] == columns@[c as int]@);
        names.push(quote_identifier(columns[c].name.as_str()));
        marks.push("?".to_owned());
        c += 1;
    }
    assert(names@.map_values(|item: String| item@) =~= schema@.map_values(
        |column: ColumnView| quoted_identifier(column.name),
    ));
    assert(marks@.map_values(|item: String| item@) =~= schema@.map_values(
        |column: ColumnView| "?"@,
    ));
    let statement = "INSERT INTO ".to_owned().concat(quote_identifier(table_name).as_str()).concat(
        " (",
    ).concat(join(&names, ", ").as_str()).concat(") VALUES (").concat(
        join(&marks, ", ").as_str(),
    ).concat(")");
    Some(statement)
}

/// The value that the fields give for a key that some field has is the
/// value of a field with that key.
proof fn lemma_value_at_is_a_field(fields: Seq<FieldView>, key: Seq<char>)
    requires
        exists|j: int| 0 <= j < fields.len() && (#[trigger] fields[j]).0 == key,
    ensures
        exists|j: int|
            0 <= j < fields.len() && (#[trigger] fields[j]).0 == key && fields[j].1 == value_at(
                fields,
                key,
            ),
    decreases fields.len(),
{
    if fields.last().0 == key {
        assert(fields[fields.len() - 1].1 == value_at(fields, key));
    } else {
        let shorter = fields.drop_last();
        let j = choose|j: int| 0 <= j < fields.len() && (#[trigger] fields[j]).0 == key;
        assert(shorter[j] == fields[j]);
        lemma_value_at_is_a_field(shorter, key);
        let k = choose|k: int|
            0 <= k < shorter.len() && (#[trigger] shorter[k]).0 == key && shorter[k].1 == value_at(
                shorter,
                key,
            );
        assert(fields[k] == shorter[k]);
    }
}

/// A table that is filled from the rows from which its schema was inferred
/// loses nothing: every key of every row has a column, and the value of the
/// row under the key is stored in that column as null only if it is null.
pub proof fn lemma_rows_fit_their_own_schema(contents: Seq<Seq<FieldView>>, r: int, j: int)
    requires
        0 <= r < contents.len(),
        0 <= j < contents[r].len(),
    ensures
        exists|c: int|
            0 <= c < inferred_schema(contents).len() && (#[trigger] inferred_schema(
                contents,
            )[c]).name == contents[r][j].0 && (stored_row(contents[r], inferred_schema(contents))[c]
                is Null <==> value_at(contents[r], contents[r][j].0) is Null),
{
    let fields = contents[r];
    let key = fields[j].0;
    let obs = observations(contents);
    let columns = inferred_schema(contents);
    lemma_value_at_is_a_field(fields, key);
    let at = choose|at: int|
        0 <= at < fields.len() && (#[trigger] fields[at]).0 == key && fields[at].1 == value_at(
            fields,
            key,
        );
    let value = fields[at].1;
    assert(observed(contents[r], key, value.kind()));
    lemma_observed_in_some_row(contents, key, value.kind());
    assert(observed(obs, key, value.kind()));
    let seen = choose|i: int|
        0 <= i < obs.len() && (#[trigger] obs[i]).0 == key && obs[i].1.kind() == value.kind();
    lemma_first_keys_contains(obs, key);
    let c = choose|c: int| 0 <= c < first_keys(obs).len() && first_keys(obs)[c] == key;
    assert(columns[c] == column_of(obs, key));
    assert(fits(value, column_of(obs, key).column_type));
    lemma_fitting_value_is_kept(value, column_of(obs, key).column_type);
    assert(stored_row(fields, columns)[c] == coerced(
        value_at(fields, columns[c].name),
        columns[c].column_type,
    ));
}

/// The rows of a table as the engine stores them: each row of the table, in
/// order, with its values in the order of the columns.
pub open spec fn stored_table(contents: Seq<Seq<FieldView>>, columns: Seq<ColumnView>) -> Seq<
    Seq<SqlValueView>,
> {
    contents.map_values(|fields: Seq<FieldView>| stored_row(fields, columns))
}

/// What an engine is filled with for one table.
pub struct TablePlan {
    /// The statement that creates the table; none for a table without
    /// columns, which is not created.
    pub create: Option<String>,
    /// The statement that writes one row.
    pub insert: Option<String>,
    /// The values of each row.
    pub rows: Vec<Vec<SqlValue>>,
}

pub open spec fn plan_rows_view(rows: Seq<Vec<SqlValue>>) -> Seq<Seq<SqlValueView>> {
    rows.map_values(|row: Vec<SqlValue>| sql_views(row@))
}

pub open spec fn statement_view(statement: Option<String>) -> Option<Seq<char>> {
    match statement {
        Some(text) => Some(text@),
        None => None,
    }
}

/// Plans how the engine is filled for one table of a database, from the
/// rows of all its tables. The table is created under its name.
pub fn plan_table(entry: &DatabaseSchemaTable, rows: &Vec<DatabaseRow>) -> (plan: TablePlan)
    ensures
        statement_view(plan.create) == if entry@.columns.len() == 0 {
            None
        } else {
            Some(create_table_statement(entry@.table.name, entry@.columns))
        },
        statement_view(plan.insert) == if entry@.columns.len() == 0 {
            None
        } else {
            Some(insert_statement(entry@.table.name, entry@.columns))
        },
        plan_rows_view(plan.rows@) == stored_table(
            contents_for(row_views(rows@), entry@.table.table_id),
            entry@.columns,
        ),
{
    let table = entry.table();
    let schema = entry.schema();
    let table_id = table.table_id().to_owned();
    let contents = rows_of_table(rows, &table_id);
    let ghost wanted = contents_for(row_views(rows@), entry@.table.table_id);
    assert(contents_of(contents@) == wanted);
    let mut stored: Vec<Vec<SqlValue>> = Vec::new();
    let mut r: usize = 0;
    while r < contents.len()
        invariant
            r <= contents@.len(),
            contents_of(contents@) == wanted,
            schema@ == entry@.columns,
            stored@.len() == r,
            forall|k: int|
                0 <= k < r ==> sql_views((#[trigger] stored@[k])@) == stored_row(
                    wanted[k],
                    entry@.columns,
                ),
        decreases contents@.len() - r,
    {
        assert(wanted[r as int] == contents@[r as int]@);
        stored.push(row_values(contents[r], schema));
        r += 1;
    }
    assert(plan_rows_view(stored@) =~= stored_table(wanted, entry@.columns));
    TablePlan {
        create: create_table_sql(table.name(), schema),
        insert: insert_sql(table.name(), schema),
        rows: stored,
    }
}

#[verifier::external_type_specification]
#[verifier::external_body]
pub struct ExConnection(rusqlite::Connection);

#[verifier::external_type_specification]
#[verifier::external_body]
pub struct ExEngineValue(rusqlite::types::Value);

/// Opens an engine in memory with `rusqlite::Connection::open_in_memory`;
/// `None` where SQLite cannot. Nothing is claimed of the outcome.
#[verifier::external_body]
fn open_in_memory() -> (connection: Option<rusqlite::Connection>) {
    rusqlite::Connection::open_in_memory().ok()
}

/// Runs one statement with `rusqlite::Connection::execute`, with the values
/// bound to its marks in order, and says whether SQLite took it. A real
/// number is bound as its text, which a column declared `REAL` stores as a
/// real number. Nothing is claimed of the outcome.
#[verifier::external_body]
fn execute(connection: &rusqlite::Connection, sql: &str, values: &Vec<SqlValue>) -> (done: bool) {
    let bound = values.iter().map(
        |value|
            match value {
                SqlValue::Null => rusqlite::types::Value::Null,
                SqlValue::Integer(n) => rusqlite::types::Value::Integer(*n),
                SqlValue::Real(text) => rusqlite::types::Value::Text(text.clone()),
                SqlValue::Text(text) => rusqlite::types::Value::Text(text.clone()),
                SqlValue::Blob(bytes) => rusqlite::types::Value::Blob(bytes.clone()),
            },
    );
    connection.execute(sql, rusqlite::params_from_iter(bound)).is_ok()
}

/// Prepares a statement with `rusqlite::Connection::prepare` and asks
/// `Statement::readonly` whether it leaves the database as it is; `None`
/// where SQLite does not take the statement. Nothing is claimed of the
/// outcome.
#[verifier::external_body]
fn statement_is_readonly(connection: &rusqlite::Connection, sql: &str) -> (readonly: Option<bool>) {
    connection.prepare(sql).ok().map(|statement| statement.readonly())
}

/// Prepares a statement and takes the names of the columns of its result
/// from `Statement::column_names`; `None` where SQLite does not take the
/// statement. Nothing is claimed of the outcome.
#[verifier::external_body]
fn statement_columns(connection: &rusqlite::Connection, sql: &str) -> (columns: Option<
    Vec<String>,
>) {
    let statement = connection.prepare(sql).ok()?;
    Some(statement.column_names().iter().map(|name| name.to_string()).collect())
}

/// Runs a statement with `Statement::query` and takes every value of every
/// row of its result with `Row::get`; `None` where SQLite fails on the way.
/// It is called for statements that do not write. Nothing is claimed of
/// the outcome.
#[verifier::external_body]
fn statement_rows(connection: &rusqlite::Connection, sql: &str) -> (rows: Option<
    Vec<Vec<rusqlite::types::Value>>,
>) {
    let mut statement = connection.prepare(sql).ok()?;
    let width = statement.column_count();
    let mut rows = statement.query([]).ok()?;
    let mut out = Vec::new();
    while let Some(row) = rows.next().ok()? {
        out.push((0..width).map(|i| row.get(i)).collect::<Result<Vec<_>, _>>().ok()?);
    }
    Some(out)
}

/// Tells the variants of `rusqlite::types::Value` apart; a real number is
/// handed on as std writes it. Nothing is claimed of the outcome.
#[verifier::external_body]
fn value_out(value: rusqlite::types::Value) -> (out: SqlValue) {
    match value {
        rusqlite::types::Value::Null => SqlValue::Null,
        rusqlite::types::Value::Integer(n) => SqlValue::Integer(n),
        rusqlite::types::Value::Real(number) => SqlValue::Real(number.to_string()),
        rusqlite::types::Value::Text(text) => SqlValue::Text(text),
        rusqlite::types::Value::Blob(bytes) => SqlValue::Blob(bytes),
    }
}

/// Why an engine could not be built.
#[derive(Clone, Copy, PartialEq, Eq, Structural, Debug)]
pub enum MaterializationError {
    /// No engine could be opened.
    EngineUnavailable,
    /// The table at this place could not be created.
    CreateFailed(usize),
    /// The row at this place of the table at this place could not be
    /// written.
    InsertFailed(usize, usize),
}

/// What a query gave: the names of the columns of the result, and the rows
/// with their values in the order of the columns.
#[derive(Debug)]
pub struct QueryRows {
    pub columns: Vec<String>,
    pub rows: Vec<Vec<SqlValue>>,
}

/// Whether a statement may run, from what the engine says of it: a
/// statement that the engine does not take is a syntax error, and one that
/// would write is a violation.
pub open spec fn query_check_spec(readonly: Option<bool>) -> Result<(), QueryErrorKind> {
    match readonly {
        None => Err(QueryErrorKind::Syntax),
        Some(false) => Err(QueryErrorKind::ReadonlyViolation),
        Some(true) => Ok(()),
    }
}

/// Whether a statement may run.
pub fn query_check(readonly: Option<bool>) -> (result: Result<(), QueryErrorKind>)
    ensures
        result == query_check_spec(readonly),
{
    match readonly {
        None => Err(QueryErrorKind::Syntax),
        Some(false) => Err(QueryErrorKind::ReadonlyViolation),
        Some(true) => Ok(()),
    }
}

/// The result of a statement that ran: its columns and rows, where the
/// engine gave both.
pub fn query_result(columns: Option<Vec<String>>, rows: Option<Vec<Vec<SqlValue>>>) -> (result:
    Result<QueryRows, QueryErrorKind>)
    ensures
        columns is Some && rows is Some ==> result is Ok && result->Ok_0.columns == columns->Some_0
            && result->Ok_0.rows == rows->Some_0,
        columns is None || rows is None ==> result is Err && result->Err_0
            == QueryErrorKind::Runtime,
{
    match (columns, rows) {
        (Some(columns), Some(rows)) => Ok(QueryRows { columns, rows }),
        _ => Err(QueryErrorKind::Runtime),
    }
}

/// An engine in memory, filled with the tables of one database.
pub struct SqliteDatabase {
    connection: rusqlite::Connection,
}

/// A failure names a table of the plans, and a row of that table.
pub open spec fn failure_is_in_plans(failure: MaterializationError, plans: Seq<TablePlan>) -> bool {
    match failure {
        MaterializationError::EngineUnavailable => true,
        MaterializationError::CreateFailed(t) => t < plans.len() && plans[t as int].create is Some,
        MaterializationError::InsertFailed(t, r) => t < plans.len() && plans[t as int].insert
            is Some && r < plans[t as int].rows@.len(),
    }
}

fn rows_out(rows: Vec<Vec<rusqlite::types::Value>>) -> (out: Vec<Vec<SqlValue>>)
    ensures
        out@.len() == rows@.len(),
        forall|r: int| 0 <= r < out@.len() ==> (#[trigger] out@[r])@.len() == rows@[r]@.len(),
{
    let ghost all = rows@;
    let mut rest = rows;
    let mut reversed: Vec<Vec<SqlValue>> = Vec::new();
    while rest.len() > 0
        invariant
            rest@.len() + reversed@.len() == all.len(),
            rest@ == all.take(rest@.len() as int),
            forall|k: int|
                0 <= k < reversed@.len() ==> (#[trigger] reversed@[k])@.len() == all[all.len() - 1
                    - k]@.len(),
        decreases rest@.len(),
    {
        let ghost before = rest@;
        let row = rest.pop().unwrap();
        assert(row == all[before.len() - 1]);
        assert(rest@ =~= all.take(rest@.len() as int));
        let ghost width = row@.len();
        let mut values = row;
        let mut backwards: Vec<SqlValue> = Vec::new();
        while values.len() > 0
            invariant
                values@.len() + backwards@.len() == width,
            decreases values@.len(),
        {
            backwards.push(value_out(values.pop().unwrap()));
        }
        let mut forwards: Vec<SqlValue> = Vec::new();
        while backwards.len() > 0
            invariant
                backwards@.len() + forwards@.len() == width,
            decreases backwards@.len(),
        {
            forwards.push(backwards.pop().unwrap());
        }
        reversed.push(forwards);
    }
    let ghost backwards_rows = reversed@;
    let mut out: Vec<Vec<SqlValue>> = Vec::new();
    while reversed.len() > 0
        invariant
            backwards_rows.len() == all.len(),
            reversed@.len() + out@.len() == all.len(),
            reversed@ == backwards_rows.take(reversed@.len() as int),
            forall|k: int|
                0 <= k < backwards_rows.len() ==> (#[trigger] backwards_rows[k])@.len() == all[all.len()
                    - 1 - k]@.len(),
            forall|k: int| 0 <= k < out@.len() ==> (#[trigger] out@[k])@.len() == all[k]@.len(),
        decreases reversed@.len(),
    {
        let ghost before = reversed@;
        let row = reversed.pop().unwrap();
        assert(row == backwards_rows[before.len() - 1]);
        assert(reversed@ =~= backwards_rows.take(reversed@.len() as int));
        out.push(row);
    }
    out
}

impl SqliteDatabase {
    /// Builds an engine and fills it as the plans say: each table that has
    /// columns is created, then its rows are written in order. The first
    /// statement that the engine refuses ends the build.
    pub fn materialize(plans: &Vec<TablePlan>) -> (result: Result<
        SqliteDatabase,
        MaterializationError,
    >)
        ensures
            result is Err ==> failure_is_in_plans(result->Err_0, plans@),
    {
        let connection = match open_in_memory() {
            Some(connection) => connection,
            None => {
                return Err(MaterializationError::EngineUnavailable);
            },
        };
        let no_values: Vec<SqlValue> = Vec::new();
        let mut t: usize = 0;
        while t < plans.len()
            invariant
                t <= plans@.len(),
            decreases plans@.len() - t,
        {
            let plan = &plans[t];
            match &plan.create {
                Some(create) => {
                    if !execute(&connection, create.as_str(), &no_values) {
                        return Err(MaterializationError::CreateFailed(t));
                    }
                },
                None => {},
            }
            match &plan.insert {
                Some(insert) => {
                    let mut r: usize = 0;
                    while r < plan.rows.len()
                        invariant
                            r <= plan.rows@.len(),
                            t < plans@.len(),
                            *plan == plans@[t as int],
                            plan.insert is Some,
                        decreases plan.rows@.len() - r,
                    {
                        if !execute(&connection, insert.as_str(), &plan.rows[r]) {
                            return Err(MaterializationError::InsertFailed(t, r));
                        }
                        r += 1;
                    }
                },
                None => {},
            }
            t += 1;
        }
        Ok(SqliteDatabase { connection })
    }

    /// Runs one statement and hands back its result. A statement that the
    /// engine does not take fails as a syntax error; one that would write
    /// is not run and fails as a violation; one that breaks while it runs
    /// fails at run time. What the engine says is not known here: the
    /// result is what `query_check` and `query_result` make of it.
    pub fn query(&self, sql: &str) -> (result: Result<QueryRows, QueryErrorKind>)
        ensures
            exists|readonly: Option<bool>|
                match #[trigger] query_check_spec(readonly) {
                    Err(kind) => result is Err && result->Err_0 == kind,
                    Ok(()) => result is Ok || (result is Err && result->Err_0
                        == QueryErrorKind::Runtime),
                },
    {
        let readonly = statement_is_readonly(&self.connection, sql);
        match query_check(readonly) {
            Err(kind) => {
                assert(query_check_spec(readonly) == Err::<(), QueryErrorKind>(kind));
                Err(kind)
            },
            Ok(()) => {
                let columns = statement_columns(&self.connection, sql);
                let rows = match statement_rows(&self.connection, sql) {
                    Some(rows) => Some(rows_out(rows)),
                    None => None,
                };
                let result = query_result(columns, rows);
                assert(query_check_spec(readonly) == Ok::<(), QueryErrorKind>(()));
                result
            },
        }
    }
}

} // verus!
