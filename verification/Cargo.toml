[package]
name = "continuum"
version = "0.1.0"
edition = "2021"
publish = false

[dependencies]
uuid = { version = "1", features = ["v4"] }
chrono = "0.4"
serde = { version = "1", features = ["derive"] }
serde_json = "1"
anyhow = "1"
async-trait = "0.1"
clap = { version = "4", features = ["derive"] }
tokio = { version = "1", features = ["rt-multi-thread", "macros", "sync", "time"] }
tempfile = "3"
dashmap = "6"
bincode = "1"
sysinfo = "0.33"
futures = "0.3"
sqlx = { version = "0.8", default-features = false, features = ["sqlite", "postgres", "runtime-tokio"] }
