//! Workers that serve read-only queries from in-memory engines.

pub mod api;
pub mod databases_store;
pub mod directory;
pub mod lifecycle;
pub mod registry;
pub mod sqlite_database;
pub mod sqlite_workers;
