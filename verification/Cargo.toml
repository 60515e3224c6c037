[package]
name = "fluxrpc_core"
version = "0.1.0"
edition = "2021"
publish = false

[dependencies]
serde_json = { version = "=1.0.154", features = ["float_roundtrip"] }
serde = { version = "=1.0.229", features = ["derive"] }
nanoid = "=0.4.0"
anyhow = "=1.0.104"
tokio = { version = "=1.54.1", features = ["sync", "time", "rt", "rt-multi-thread", "macros"] }
async-trait = "=0.1.92"
ezsockets = { version = "=0.7.2", features = ["tungstenite"] }
schemars = "=1.2.3"
json_schema = "=1.8.3"
tracing = "=0.1.44"
