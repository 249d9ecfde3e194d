[package]
name = "depmgr"
version = "0.1.0"
edition = "2021"
publish = false

[dependencies]
anyhow = "1"
chrono = "0.4"
dashmap = "*"
futures = "0.3"
reqwest = { version = "*", default-features = false, features = ["gzip", "json"] }
serde = { version = "1", features = ["derive"] }
serde_json = "1"
tokio = { version = "1", features = ["rt-multi-thread", "macros", "process", "sync", "time"] }
walkdir = "2"
