[package]
name = "jsonrpc_http"
version = "0.1.0"
edition = "2021"
publish = false

[dependencies]
base64 = "0.13"
serde_json = "1"
hyper = { version = "0.14", features = ["client", "http1", "tcp"] }
tokio = { version = "1", features = ["rt-multi-thread", "time"] }
