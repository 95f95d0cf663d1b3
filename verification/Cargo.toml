[package]
name = "takeln"
version = "0.11.0"
edition = "2021"
publish = false

[dependencies]
async-trait = "0.1"
chrono = { version = "0.4", features = ["serde"] }
hex = "0.4"
rand = "0.8"
rusqlite = { version = "0.32", features = ["bundled"] }
serde = { version = "1", features = ["derive"] }
serde_json = "1"
sha2 = "0.10"
sqlx-core = { version = "0.8", features = ["_rt-tokio", "json", "chrono", "uuid"] }
sqlx-postgres = { version = "0.8", features = ["json", "chrono", "uuid"] }
thiserror = "1"
tokio = { version = "1", features = ["rt-multi-thread", "macros", "sync", "time"] }
tokio-util = "0.7"
tracing = "0.1"
uuid = { version = "1", features = ["v4", "v5", "serde"] }
