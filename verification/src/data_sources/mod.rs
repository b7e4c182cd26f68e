//! The nodes of a data source: documents, tables and folders.

pub mod folder;
pub mod node;
