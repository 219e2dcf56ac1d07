[package]
name = "rust_builder"
version = "0.1.0"
edition = "2021"
publish = false

[dependencies]
anyhow = "=1.0.104"
clap = { version = "=4.6.7", features = ["derive"] }
clap_complete = "=4.6.11"
dotenvy = "=0.15.7"
git2 = "=0.21.0"
hashbrown = { version = "=0.15.5", features = ["serde"] }
hex = "=0.4.3"
reqwest = { version = "=0.12.28", features = ["multipart", "stream"] }
resolve-path = "=0.1.0"
serde = { version = "=1.0.229", features = ["derive"] }
serde_with = { version = "=3.24.0", features = ["hashbrown_0_15"] }
serde_yaml = "=0.9.34"
tokio = { version = "=1.54.1", features = ["fs", "macros", "process", "rt", "rt-multi-thread", "signal"] }
tokio-util = { version = "=0.7.20", features = ["codec"] }
tracing = "=0.1.44"
tracing-subscriber = "0.3"
