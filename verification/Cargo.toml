[package]
name = "ndn_mobile"
version = "0.1.0"
edition = "2021"
publish = false

[dependencies]
bytes = "=1.12.1"
getrandom = "=0.2.17"
serde_json = "=1.0.154"
tokio = { version = "=1.54.1", features = ["sync", "rt", "rt-multi-thread", "time", "macros", "net", "io-util", "signal"] }
tokio-util = "=0.7.20"
tracing = "=0.1.44"
tracing-subscriber = { version = "=0.3.23", features = ["env-filter"] }
async-trait = "=0.1.92"
anyhow = "=1.0.104"
thiserror = "=2.0.21"
boltffi = "=0.25.3"
