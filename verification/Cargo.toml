[package]
name = "synonz"
version = "0.1.0"
edition = "2021"
publish = false

[dependencies]
futures = "0.3"
schemars = "1"
serde = { version = "1", features = ["derive"] }
serde_json = "1"
thiserror = "2"
tokio = { version = "1", features = ["rt", "rt-multi-thread", "sync", "time", "macros"] }
tokio-util = "0.7"
