[package]
name = "grat_core"
version = "0.1.0"
edition = "2021"
publish = false

[dependencies]
anyhow = "=1.0.104"
flate2 = "=1.1.10"
hex = "=0.4.3"
reqwest = { version = "=0.12.28", default-features = false, features = ["rustls-tls"] }
serde = { version = "=1.0.229", features = ["derive"] }
serde_json = "=1.0.154"
stellar-strkey = "=0.0.9"
stellar-xdr = { version = "=22.2.0", features = ["base64", "serde"] }
wasmparser = "=0.116.1"
