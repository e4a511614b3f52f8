[package]
name = "remo-server"
version = "0.1.0"
edition = "2021"
publish = false

[dependencies]
async-trait = "0.1"
parking_lot = "0.12"
serde_json = "1"
tokio = { version = "1", features = ["macros", "rt-multi-thread", "sync", "time"] }
tracing = "0.1"
tracing-subscriber = { version = "0.3", features = ["env-filter"] }
uuid = { version = "1", features = ["v7"] }
