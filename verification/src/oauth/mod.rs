//! Credentials for the services of others.

pub mod credential;
