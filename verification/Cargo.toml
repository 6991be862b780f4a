[package]
name = "opencode_sessions"
version = "0.1.0"
edition = "2021"
publish = false

[dependencies]
chrono = "0.4"
dirs = "*"
regex = "1"
rusqlite = { version = "*", features = ["bundled"] }
serde_json = "1"

[dev-dependencies]
tempfile = "3"
