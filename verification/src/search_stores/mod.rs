//! Search over the nodes of data sources.

pub mod search_store;
