//! The core of a platform that runs apps made of blocks over the data of
//! its users.
//!
//! Most of it serves a fleet of workers that answer SQL queries from
//! engines held in memory: the schema of a table is inferred from its rows,
//! an engine is built for a database by the first request that misses it
//! and dropped when the rows change, and a worker heartbeats to a control
//! plane until it is told to terminate, when it ends in order. Beside that
//! stand the nodes of data sources and their search, the variables in the
//! texts of blocks, credentials, and the answers of a language model.

pub mod blocks;
pub mod data_sources;
pub mod databases;
pub mod deno;
pub mod keyed;
pub mod oauth;
pub mod providers;
pub mod search_stores;
pub mod sqlite_workers;
pub mod utils;
