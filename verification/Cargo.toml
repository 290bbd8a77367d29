[package]
name = "rollout"
version = "0.1.0"
edition = "2021"
publish = false

[dependencies]
serde = { version = "1", features = ["derive"] }
serde_json = "1"
time = { version = "0.3", features = ["formatting", "local-offset", "macros"] }
tokio = { version = "1", features = ["fs", "io-util", "rt", "sync"] }
tracing = "0.1"
uuid = { version = "1", features = ["serde"] }
