[package]
name = "sgproxy"
version = "0.1.0"
edition = "2021"
publish = false

[dependencies]
anyhow = "1"
base64 = "0.22"
js-sys = "*"
rand = "0.9"
serde = { version = "1", features = ["derive"] }
serde_json = "1"
sha2 = "0.10"
tiktoken-rs = "*"
url = "2"
wasm-bindgen = "*"
worker = "*"
