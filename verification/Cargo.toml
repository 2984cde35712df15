[package]
name = "wtmm"
version = "0.1.0"
edition = "2021"
publish = false

[dependencies]
mailparse = "=0.13.8"
chrono = "=0.4.45"
rusqlite = "*"
rusqlite_migration = "*"
cron = "*"
tiny_http = "*"
ureq = "2"
serde = { version = "1", features = ["derive"] }
serde_json = "1"
tracing = "0.1"
tracing-subscriber = "0.3"
uuid = { version = "1", features = ["v4"] }
