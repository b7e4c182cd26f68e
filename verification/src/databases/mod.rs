//! Logical databases, their tables and rows, and the schema inferred from
//! row contents.

pub mod database;
pub mod row_content;
pub mod table_schema;
