[package]
name = "deadline_tracker"
version = "0.1.0"
edition = "2021"
publish = false

[dependencies]
rusqlite = { version = "*", features = ["bundled"] }
chrono = "*"
ulid = "*"

[dev-dependencies]
serde_json = "*"
