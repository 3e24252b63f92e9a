[package]
name = "codex_core"
version = "0.1.0"
edition = "2021"
publish = false

[dependencies]
serde = { version = "1", features = ["derive"] }
tokio = { version = "1", features = ["process", "io-util", "sync", "rt", "macros"] }
