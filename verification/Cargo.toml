[package]
name = "datafusion_pg_catalog"
version = "0.1.0"
edition = "2021"
publish = false

[dependencies]
anyhow = "=1.0.104"
arrow = "=59.3.2"
async-trait = "=0.1.92"
bytes = "=1.12.1"
chrono = "=0.4.45"
env_logger = "=0.11.11"
futures = "=0.3.34"
log = "=0.4.35"
pgwire = { version = "=0.40.7", default-features = false, features = ["server-api"] }
rusqlite = "=0.41.1"
rustyline = { version = "=19.0.0", default-features = false }
serde_json = { version = "=1.0.154", features = ["preserve_order"] }
sqlparser = { version = "=0.62.0", features = ["visitor", "serde"] }
tokio = { version = "=1.54.1", features = ["full"] }
