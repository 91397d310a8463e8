[package]
name = "eth_gateway"
version = "0.1.0"
edition = "2021"
publish = false

[dependencies]
sha3 = "*"
jsonrpsee = { version = "*", features = ["ws-client"] }
tokio = { version = "*", features = ["rt", "time", "macros"] }
serde_json = "*"
