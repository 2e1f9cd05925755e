[package]
name = "terminplaner"
version = "0.1.0"
edition = "2021"
publish = false

[dependencies]
rusqlite = { version = "*", features = ["bundled"] }
chrono = "*"
tokio = { version = "*", features = ["rt-multi-thread", "macros", "time", "sync"] }
notify-rust = "*"
