[package]
name = "langchain-core"
version = "0.1.0"
edition = "2021"
publish = false

[dependencies]
regex = "1"
serde = { version = "1", features = ["derive"] }
serde_json = "1"
serde_yaml = "0.9"
thiserror = "1"
async-trait = "0.1"
tokio = { version = "1", features = ["rt-multi-thread", "macros", "time", "sync"] }
futures = "0.3"
chrono = "0.4"
uuid = { version = "1", features = ["v4", "serde"] }
rand = "0.8"
lazy_static = "1"
parking_lot = "0.12"
dashmap = "5"
sha2 = "0.10"
hex = "0.4"
csv = "1"
schemars = "0.8"
tracing = "0.1"
