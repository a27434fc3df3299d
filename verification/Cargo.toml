[package]
name = "interbtc_clients"
version = "0.1.0"
edition = "2021"
publish = false

[dependencies]
async-trait = "0.1"
chrono = "0.4"
futures = "0.3"
hex = "0.4"
jsonrpc-http-server = "*"
kv = { version = "*", features = ["json-value"] }
parity-scale-codec = { version = "*", features = ["derive"] }
serde = { version = "1", features = ["derive"] }
sp-core = "*"
tokio = { version = "1", features = ["rt"] }
tracing = "0.1"
