//! Code blocks written in JavaScript.

pub mod script;
