[package]
name = "axis_core"
version = "0.1.0"
edition = "2021"
publish = false

[dependencies]
dashmap = "*"
serenity = "0.12"
tokio = { version = "1", features = ["macros", "rt-multi-thread", "time", "sync"] }
reqwest = { version = "*", features = ["json"] }
serde = { version = "1", features = ["derive"] }
serde_json = "1"
anyhow = "1"
chrono = "*"
tracing = "*"
tracing-subscriber = "*"
