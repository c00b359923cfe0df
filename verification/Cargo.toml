[package]
name = "betanet"
version = "0.1.0"
edition = "2021"
publish = false

[dependencies]
rand = "0.8"
chrono = "0.4"
sha2 = "0.10"
schnorrkel = "0.11"
serde = { version = "1", features = ["derive"] }
serde_json = "1"
tokio = { version = "1", features = ["net", "io-util", "time", "sync", "rt", "rt-multi-thread", "macros"] }
thiserror = "1"
tracing = "0.1"
uuid = { version = "1", features = ["v4"] }
bytes = "1"
