//! The blocks of an app.

pub mod block;
pub mod chat;
