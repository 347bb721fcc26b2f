[package]
name = "redemption"
version = "0.1.0"
edition = "2021"
publish = false

[dependencies]
rand = "0.9"
serde = { version = "1", features = ["derive"] }
bincode = "1"
tokio = { version = "1", features = ["fs", "io-util", "rt", "macros"] }
thiserror = "2"
tracing = "0.1"
