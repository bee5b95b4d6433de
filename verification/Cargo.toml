[package]
name = "almost-raft"
version = "0.1.0"
edition = "2021"
publish = false

[dependencies]
async-trait = "0.1"
futures-util = "0.3"
log = "0.4"
rand = "0.8"
serde = { version = "1", features = ["derive"] }
tokio = { version = "1", features = ["sync", "time", "rt", "macros"] }
tokio-stream = "0.1"

[dev-dependencies]
uuid = { version = "1", features = ["v4"] }
