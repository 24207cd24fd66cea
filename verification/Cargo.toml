[package]
name = "zai_proxy"
version = "0.1.0"
edition = "2021"
publish = false

[dependencies]
base64 = "0.22"
openssl = { version = "0.10", features = ["vendored"] }
serde = { version = "1", features = ["derive"] }
serde_json = "1"
