[package]
name = "virtual_file"
version = "0.1.0"
edition = "2021"
publish = false

[dependencies]
regex = "=1.13.1"
serde = { version = "=1.0.229", features = ["derive"] }
serde_json = "=1.0.154"
blake3 = "=1.8.7"
colored = "=3.1.1"
futures = "=0.3.34"
tokio = { version = "=1.54.1", features = ["rt-multi-thread", "net", "fs", "io-util", "sync", "macros"] }
tokio-tungstenite = "=0.30.0"
indicatif = "=0.18.6"
lazy_static = "=1.5.1"
time = "=0.3.55"
wasmtime = "=46.0.3"
wasmtime-wasi = "=46.0.3"
