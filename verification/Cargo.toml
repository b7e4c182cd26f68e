[package]
name = "dust"
version = "0.1.0"
edition = "2021"
publish = false

[dependencies]
anyhow = "=1.0.104"
async-trait = "=0.1.92"
axum = "=0.6.20"
blake3 = { version = "=1.8.7", features = ["pure"] }
elasticsearch = "=8.5.0-alpha.1"
elasticsearch-dsl = "0.4"
eventsource-client = "0.12"
futures = "0.3"
hyper = { version = "=0.14.32", features = ["full"] }
hyper-tls = "0.5"
jsonpath-rust = "=0.3.5"
parking_lot = "0.12"
regex = "=1.13.1"
rusqlite = "=0.40.2"
serde = { version = "=1.0.229", features = ["derive"] }
serde_json = "=1.0.154"
tokio = { version = "=1.54.1", features = ["full"] }
tokio-postgres = "0.7"
tower-http = { version = "=0.4.4", features = ["trace"] }
tracing = "=0.1.44"
tracing-subscriber = "=0.3.23"
url = "=2.5.8"
yup-oauth2 = "8"
