[package]
name = "odilia_cache"
version = "0.1.0"
edition = "2021"
publish = false

[dependencies]
async-trait = "0.1"
atspi = "0.10"
dashmap = "5"
eyre = "0.6"
futures = "0.3"
serde = { version = "1", features = ["derive"] }
serde_plain = "1"
speech-dispatcher = "*"
ssip-client = "*"
tokio = { version = "1", features = ["macros", "rt", "signal", "sync", "time"] }
tracing = "0.1"
zbus = "3"
