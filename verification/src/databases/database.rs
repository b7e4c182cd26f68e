//! Databases, tables and rows, and the schema of a whole database.

use crate::databases::row_content::{FieldView, RowContent};
use crate::databases::table_schema::{contents_of, inferred_schema, ColumnView, TableSchema};
use vstd::prelude::*;

verus! {

#[derive(Clone, Copy, PartialEq, Eq, Structural, Debug)]
pub enum DatabaseType {
    LOCAL,
    REMOTE,
}

impl DatabaseType {
    /// The lower-case name of the type.
    pub fn to_string(&self) -> (name: String)
        ensures
            name@ == match *self {
                DatabaseType::LOCAL => "local"@,
                DatabaseType::REMOTE => "remote"@,
            },
    {
        match self {
            DatabaseType::LOCAL => "local".to_owned(),
            DatabaseType::REMOTE => "remote".to_owned(),
        }
    }
}

/// Why the schema of a database cannot be given.
#[derive(Clone, Copy, PartialEq, Eq, Structural, Debug)]
pub enum DatabaseError {
    /// The database is remote; only local databases are materialized.
    RemoteNotImplemented,
    /// A row names a table that the database does not have.
    UnknownTable,
}

#[derive(Debug)]
pub struct DatabaseTable {
    created: u64,
    database_id: String,
    table_id: String,
    name: String,
    description: String,
}

pub struct TableView {
    pub created: u64,
    pub database_id: Seq<char>,
    pub table_id: Seq<char>,
    pub name: Seq<char>,
    pub description: Seq<char>,
}

impl View for DatabaseTable {
    type V = TableView;

    closed spec fn view(&self) -> TableView {
        TableView {
            created: self.created,
            database_id: self.database_id@,
            table_id: self.table_id@,
            name: self.name@,
            description: self.description@,
        }
    }
}

impl DatabaseTable {
    pub fn new(created: u64, database_id: &str, table_id: &str, name: &str, description: &str) -> (table:
        Self)
        ensures
            table@ == (TableView {
                created,
                database_id: database_id@,
                table_id: table_id@,
                name: name@,
                description: description@,
            }),
    {
        DatabaseTable {
            created,
            database_id: database_id.to_owned(),
            table_id: table_id.to_owned(),
            name: name.to_owned(),
            description: description.to_owned(),
        }
    }

    pub fn created(&self) -> (created: u64)
        ensures
            created == self@.created,
    {
        self.created
    }

    pub fn database_id(&self) -> (id: &str)
        ensures
            id@ == self@.database_id,
    {
        self.database_id.as_str()
    }

    pub fn table_id(&self) -> (id: &str)
        ensures
            id@ == self@.table_id,
    {
        self.table_id.as_str()
    }

    pub fn name(&self) -> (name: &str)
        ensures
            name@ == self@.name,
    {
        self.name.as_str()
    }

    pub fn description(&self) -> (description: &str)
        ensures
            description@ == self@.description,
    {
        self.description.as_str()
    }
}

impl Clone for DatabaseTable {
    fn clone(&self) -> (copy: Self)
        ensures
            copy@ == self@,
    {
        DatabaseTable {
            created: self.created,
            database_id: self.database_id.clone(),
            table_id: self.table_id.clone(),
            name: self.name.clone(),
            description: self.description.clone(),
        }
    }
}

#[derive(Debug)]
pub struct DatabaseRow {
    created: u64,
    table_id: String,
    row_id: String,
    content: RowContent,
}

pub struct RowView {
    pub created: u64,
    pub table_id: Seq<char>,
    pub row_id: Seq<char>,
    pub content: Seq<FieldView>,
}

impl View for DatabaseRow {
    type V = RowView;

    closed spec fn view(&self) -> RowView {
        RowView {
            created: self.created,
            table_id: self.table_id@,
            row_id: self.row_id@,
            content: self.content@,
        }
    }
}

impl DatabaseRow {
    pub fn new(created: u64, table_id: &str, row_id: &str, content: &RowContent) -> (row: Self)
        ensures
            row@ == (RowView {
                created,
                table_id: table_id@,
                row_id: row_id@,
                content: content@,
            }),
    {
        DatabaseRow {
            created,
            table_id: table_id.to_owned(),
            row_id: row_id.to_owned(),
            content: content.clone(),
        }
    }

    pub fn created(&self) -> (created: u64)
        ensures
            created == self@.created,
    {
        self.created
    }

    pub fn table_id(&self) -> (id: &str)
        ensures
            id@ == self@.table_id,
    {
        self.table_id.as_str()
    }

    pub fn row_id(&self) -> (id: &str)
        ensures
            id@ == self@.row_id,
    {
        self.row_id.as_str()
    }

    pub fn content(&self) -> (content: &RowContent)
        ensures
            content@ == self@.content,
    {
        &self.content
    }

    /// Whether two rows have the same id.
    pub fn same_row_id(&self, other: &DatabaseRow) -> (same: bool)
        ensures
            same == (self@.row_id == other@.row_id),
    {
        self.row_id == other.row_id
    }

    /// The same row in another table.
    pub fn in_table(&self, table_id: &str) -> (row: DatabaseRow)
        ensures
            row@ == (RowView { table_id: table_id@, ..self@ }),
    {
        DatabaseRow {
            created: self.created,
            table_id: table_id.to_owned(),
            row_id: self.row_id.clone(),
            content: self.content.clone(),
        }
    }
}

impl Clone for DatabaseRow {
    fn clone(&self) -> (copy: Self)
        ensures
            copy@ == self@,
    {
        DatabaseRow {
            created: self.created,
            table_id: self.table_id.clone(),
            row_id: self.row_id.clone(),
            content: self.content.clone(),
        }
    }
}

/// The views of a list of rows.
pub open spec fn row_views(rows: Seq<DatabaseRow>) -> Seq<RowView> {
    rows.map_values(|row: DatabaseRow| row@)
}

/// The views of a list of tables.
pub open spec fn table_views(tables: Seq<DatabaseTable>) -> Seq<TableView> {
    tables.map_values(|table: DatabaseTable| table@)
}

/// Some table of the list has this id.
pub open spec fn has_table(tables: Seq<TableView>, table_id: Seq<char>) -> bool {
    exists|t: int| 0 <= t < tables.len() && (#[trigger] tables[t]).table_id == table_id
}

/// Some row names a table that is not in the list.
pub open spec fn row_of_unknown_table(tables: Seq<TableView>, rows: Seq<RowView>) -> bool {
    exists|r: int| 0 <= r < rows.len() && !has_table(tables, (#[trigger] rows[r]).table_id)
}

/// The contents of the rows of one table, in the order of the rows.
pub open spec fn contents_for(rows: Seq<RowView>, table_id: Seq<char>) -> Seq<Seq<FieldView>>
    decreases rows.len(),
{
    if rows.len() == 0 {
        Seq::empty()
    } else {
        let earlier = contents_for(rows.drop_last(), table_id);
        if rows.last().table_id == table_id {
            earlier.push(rows.last().content)
        } else {
            earlier
        }
    }
}

/// The tables without those whose id an earlier table already has.
pub open spec fn distinct_tables(tables: Seq<TableView>) -> Seq<TableView>
    decreases tables.len(),
{
    if tables.len() == 0 {
        Seq::empty()
    } else {
        let earlier = distinct_tables(tables.drop_last());
        if has_table(earlier, tables.last().table_id) {
            earlier
        } else {
            earlier.push(tables.last())
        }
    }
}

pub struct SchemaTableView {
    pub table: TableView,
    pub columns: Seq<ColumnView>,
}

/// The schema of a database: each of its tables, once, with the schema
/// inferred from the rows of that table. A table without rows has no column.
pub open spec fn database_schema(tables: Seq<TableView>, rows: Seq<RowView>) -> Seq<
    SchemaTableView,
> {
    distinct_tables(tables).map_values(
        |table: TableView|
            SchemaTableView {
                table,
                columns: inferred_schema(contents_for(rows, table.table_id)),
            },
    )
}

/// A table together with its inferred schema.
#[derive(Debug)]
pub struct DatabaseSchemaTable {
    table: DatabaseTable,
    schema: TableSchema,
}

impl View for DatabaseSchemaTable {
    type V = SchemaTableView;

    closed spec fn view(&self) -> SchemaTableView {
        SchemaTableView { table: self.table@, columns: self.schema@ }
    }
}

impl DatabaseSchemaTable {
    pub fn new(table: DatabaseTable, schema: TableSchema) -> (entry: Self)
        ensures
            entry@ == (SchemaTableView { table: table@, columns: schema@ }),
    {
        DatabaseSchemaTable { table, schema }
    }

    pub fn table(&self) -> (table: &DatabaseTable)
        ensures
            table@ == self@.table,
    {
        &self.table
    }

    pub fn schema(&self) -> (schema: &TableSchema)
        ensures
            schema@ == self@.columns,
    {
        &self.schema
    }
}

/// The schema of every table of a database, in the order of the tables.
#[derive(Debug)]
pub struct DatabaseSchema {
    tables: Vec<DatabaseSchemaTable>,
}

impl View for DatabaseSchema {
    type V = Seq<SchemaTableView>;

    closed spec fn view(&self) -> Seq<SchemaTableView> {
        self.tables@.map_values(|entry: DatabaseSchemaTable| entry@)
    }
}

impl DatabaseSchema {
    pub fn tables(&self) -> (tables: &Vec<DatabaseSchemaTable>)
        ensures
            tables@.map_values(|entry: DatabaseSchemaTable| entry@) == self@,
    {
        &self.tables
    }

    /// The entry of the first table with this id, if there is one.
    pub fn get(&self, table_id: &str) -> (found: Option<&DatabaseSchemaTable>)
        ensures
            match found {
                Some(entry) => exists|t: int|
                    0 <= t < self@.len() && self@[t] == entry@ && entry@.table.table_id == table_id@
                        && forall|k: int| 0 <= k < t ==> self@[k].table.table_id != table_id@,
                None => forall|t: int| 0 <= t < self@.len() ==> self@[t].table.table_id != table_id@,
            },
    {
        let wanted = table_id.to_owned();
        let mut t: usize = 0;
        while t < self.tables.len()
            invariant
                t <= self.tables@.len(),
                wanted@ == table_id@,
                forall|k: int| 0 <= k < t ==> self@[k].table.table_id != table_id@,
            decreases self.tables@.len() - t,
        {
            if self.tables[t].table.table_id == wanted {
                assert(self@[t as int] == self.tables@[t as int]@);
                return Some(&self.tables[t]);
            }
            assert(self@[t as int] == self.tables@[t as int]@);
            t += 1;
        }
        None
    }
}

#[derive(Debug)]
pub struct Database {
    created: u64,
    data_source_id: String,
    database_id: String,
    name: String,
    db_type: DatabaseType,
}

pub struct DatabaseView {
    pub created: u64,
    pub data_source_id: Seq<char>,
    pub database_id: Seq<char>,
    pub name: Seq<char>,
    pub db_type: DatabaseType,
}

impl View for Database {
    type V = DatabaseView;

    closed spec fn view(&self) -> DatabaseView {
        DatabaseView {
            created: self.created,
            data_source_id: self.data_source_id@,
            database_id: self.database_id@,
            name: self.name@,
            db_type: self.db_type,
        }
    }
}

fn knows_table(tables: &Vec<DatabaseTable>, table_id: &String) -> (known: bool)
    ensures
        known == has_table(table_views(tables@), table_id@),
{
    let mut t: usize = 0;
    while t < tables.len()
        invariant
            t <= tables@.len(),
            forall|k: int| 0 <= k < t ==> (#[trigger] table_views(tables@)[k]).table_id != table_id@,
        decreases tables@.len() - t,
    {
        if tables[t].table_id == *table_id {
            assert(table_views(tables@)[t as int].table_id == table_id@);
            return true;
        }
        assert(table_views(tables@)[t as int] == tables@[t as int]@);
        t += 1;
    }
    false
}

fn lists_table(entries: &Vec<DatabaseSchemaTable>, table_id: &String) -> (listed: bool)
    ensures
        listed == exists|t: int|
            0 <= t < entries@.len() && (#[trigger] entries@[t])@.table.table_id == table_id@,
{
    let mut t: usize = 0;
    while t < entries.len()
        invariant
            t <= entries@.len(),
            forall|k: int| 0 <= k < t ==> (#[trigger] entries@[k])@.table.table_id != table_id@,
        decreases entries@.len() - t,
    {
        if entries[t].table.table_id == *table_id {
            return true;
        }
        t += 1;
    }
    false
}

/// The contents of the rows of one table, borrowed from the rows.
pub fn rows_of_table<'a>(rows: &'a Vec<DatabaseRow>, table_id: &String) -> (contents: Vec<
    &'a RowContent,
>)
    ensures
        contents_of(contents@) == contents_for(
            row_views(rows@),
            table_id@,
        ),
{
    let ghost views = row_views(rows@);
    let mut contents: Vec<&'a RowContent> = Vec::new();
    let mut r: usize = 0;
    assert(contents_of(contents@) =~= contents_for(
        views.take(0),
        table_id@,
    ));
    while r < rows.len()
        invariant
            r <= rows@.len(),
            views == row_views(rows@),
            contents_of(contents@) == contents_for(
                views.take(r as int),
                table_id@,
            ),
        decreases rows@.len() - r,
    {
        let ghost before = contents_of(contents@);
        proof {
            assert(views.take(r + 1).drop_last() =~= views.take(r as int));
            assert(views.take(r + 1).last() == rows@[r as int]@);
        }
        if rows[r].table_id == *table_id {
            contents.push(&rows[r].content);
            assert(contents_of(contents@) =~= before.push(
                rows@[r as int]@.content,
            ));
        }
        r += 1;
    }
    assert(views.take(r as int) =~= views);
    contents
}

impl Database {
    /// A local database.
    pub fn new(created: u64, data_source_id: &str, database_id: &str, name: &str) -> (database:
        Self)
        ensures
            database@ == (DatabaseView {
                created,
                data_source_id: data_source_id@,
                database_id: database_id@,
                name: name@,
                db_type: DatabaseType::LOCAL,
            }),
    {
        Database {
            created,
            data_source_id: data_source_id.to_owned(),
            database_id: database_id.to_owned(),
            name: name.to_owned(),
            db_type: DatabaseType::LOCAL,
        }
    }

    /// A database of the given type.
    pub fn with_type(
        created: u64,
        data_source_id: &str,
        database_id: &str,
        name: &str,
        db_type: DatabaseType,
    ) -> (database: Self)
        ensures
            database@ == (DatabaseView {
                created,
                data_source_id: data_source_id@,
                database_id: database_id@,
                name: name@,
                db_type,
            }),
    {
        Database {
            created,
            data_source_id: data_source_id.to_owned(),
            database_id: database_id.to_owned(),
            name: name.to_owned(),
            db_type,
        }
    }

    /// The schema of the database, given its tables and the rows of all its
    /// tables. Fails for a remote database, and for a row that names a
    /// table which the database does not have.
    pub fn get_schema(&self, tables: &Vec<DatabaseTable>, rows: &Vec<DatabaseRow>) -> (result:
        Result<DatabaseSchema, DatabaseError>)
        ensures
            self@.db_type == DatabaseType::REMOTE ==> result == Err::<DatabaseSchema, DatabaseError>(
                DatabaseError::RemoteNotImplemented,
            ),
            self@.db_type == DatabaseType::LOCAL && row_of_unknown_table(
                table_views(tables@),
                row_views(rows@),
            ) ==> result == Err::<DatabaseSchema, DatabaseError>(DatabaseError::UnknownTable),
            self@.db_type == DatabaseType::LOCAL && !row_of_unknown_table(
                table_views(tables@),
                row_views(rows@),
            ) ==> result is Ok && result->Ok_0@ == database_schema(
                table_views(tables@),
                row_views(rows@),
            ),
    {
        if self.db_type == DatabaseType::REMOTE {
            return Err(DatabaseError::RemoteNotImplemented);
        }
        assert(self@.db_type == DatabaseType::LOCAL);
        let ghost tviews = table_views(tables@);
        let ghost rviews = row_views(rows@);
        let mut r: usize = 0;
        while r < rows.len()
            invariant
                r <= rows@.len(),
                self@.db_type == DatabaseType::LOCAL,
                tviews == table_views(tables@),
                rviews == row_views(rows@),
                forall|k: int| 0 <= k < r ==> has_table(tviews, (#[trigger] rviews[k]).table_id),
            decreases rows@.len() - r,
        {
            assert(rviews[r as int] == rows@[r as int]@);
            if !knows_table(tables, &rows[r].table_id) {
                return Err(DatabaseError::UnknownTable);
            }
            r += 1;
        }
        let mut entries: Vec<DatabaseSchemaTable> = Vec::new();
        let mut t: usize = 0;
        assert(entries@.map_values(|entry: DatabaseSchemaTable| entry@) =~= database_schema(
            tviews.take(0),
            rviews,
        ));
        while t < tables.len()
            invariant
                t <= tables@.len(),
                tviews == table_views(tables@),
                rviews == row_views(rows@),
                entries@.map_values(|entry: DatabaseSchemaTable| entry@) == database_schema(
                    tviews.take(t as int),
                    rviews,
                ),
            decreases tables@.len() - t,
        {
            let ghost before = entries@.map_values(|entry: DatabaseSchemaTable| entry@);
            let ghost earlier = distinct_tables(tviews.take(t as int));
            proof {
                assert(tviews.take(t + 1).drop_last() =~= tviews.take(t as int));
                assert(tviews.take(t + 1).last() == tables@[t as int]@);
                assert(before.len() == earlier.len());
                assert forall|k: int| 0 <= k < earlier.len() implies (#[trigger] entries@[k])@.table
                    == earlier[k] by {
                    assert(before[k] == entries@[k]@);
                }
            }
            let listed = lists_table(&entries, &tables[t].table_id);
            proof {
                let id = tables@[t as int]@.table_id;
                if listed {
                    let k = choose|k: int|
                        0 <= k < entries@.len() && (#[trigger] entries@[k])@.table.table_id == id;
                    assert(earlier[k].table_id == id);
                }
                if has_table(earlier, id) {
                    let k = choose|k: int|
                        0 <= k < earlier.len() && (#[trigger] earlier[k]).table_id == id;
                    assert(entries@[k]@.table.table_id == id);
                }
                assert(listed == has_table(earlier, id));
            }
            if !listed {
                let contents = rows_of_table(rows, &tables[t].table_id);
                let schema = TableSchema::from_rows(&contents);
                entries.push(DatabaseSchemaTable::new(tables[t].clone(), schema));
                assert(entries@.map_values(|entry: DatabaseSchemaTable| entry@) =~= before.push(
                    SchemaTableView {
                        table: tables@[t as int]@,
                        columns: inferred_schema(contents_for(rviews, tables@[t as int]@.table_id)),
                    },
                ));
                assert(database_schema(tviews.take(t + 1), rviews) =~= before.push(
                    SchemaTableView {
                        table: tables@[t as int]@,
                        columns: inferred_schema(contents_for(rviews, tables@[t as int]@.table_id)),
                    },
                ));
            }
            t += 1;
        }
        assert(tviews.take(t as int) =~= tviews);
        Ok(DatabaseSchema { tables: entries })
    }

    pub fn created(&self) -> (created: u64)
        ensures
            created == self@.created,
    {
        self.created
    }

    pub fn data_source_id(&self) -> (id: &str)
        ensures
            id@ == self@.data_source_id,
    {
        self.data_source_id.as_str()
    }

    pub fn database_id(&self) -> (id: &str)
        ensures
            id@ == self@.database_id,
    {
        self.database_id.as_str()
    }

    pub fn name(&self) -> (name: &str)
        ensures
            name@ == self@.name,
    {
        self.name.as_str()
    }

    pub fn db_type(&self) -> (db_type: DatabaseType)
        ensures
            db_type == self@.db_type,
    {
        self.db_type
    }
}

/// A database without tables has an empty schema, whatever rows there are.
pub proof fn lemma_no_tables_no_schema(rows: Seq<RowView>)
    ensures
        database_schema(Seq::empty(), rows) == Seq::<SchemaTableView>::empty(),
{
    assert(database_schema(Seq::empty(), rows) =~= Seq::<SchemaTableView>::empty());
}

/// The tables of a schema have distinct ids.
pub proof fn lemma_distinct_tables_have_distinct_ids(tables: Seq<TableView>, i: int, j: int)
    requires
        0 <= i < distinct_tables(tables).len(),
        0 <= j < distinct_tables(tables).len(),
        distinct_tables(tables)[i].table_id == distinct_tables(tables)[j].table_id,
    ensures
        i == j,
    decreases tables.len(),
{
    if tables.len() > 0 {
        let earlier = distinct_tables(tables.drop_last());
        if has_table(earlier, tables.last().table_id) {
            lemma_distinct_tables_have_distinct_ids(tables.drop_last(), i, j);
        } else {
            if i < earlier.len() && j < earlier.len() {
                lemma_distinct_tables_have_distinct_ids(tables.drop_last(), i, j);
            } else if i < earlier.len() {
                assert(earlier[i].table_id == tables.last().table_id);
            } else if j < earlier.len() {
                assert(earlier[j].table_id == tables.last().table_id);
            }
        }
    }
}

} // verus!
