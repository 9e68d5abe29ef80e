[package]
name = "lcu"
version = "0.1.0"
edition = "2021"
publish = false

[dependencies]
regex = "=1.13.1"
serde = { version = "=1.0.229", features = ["derive"] }
serde_json = "=1.0.154"
anyhow = "=1.0.104"
reqwest = { version = "=0.12.28", default-features = false, features = ["json", "rustls-tls"] }
opgg = "=0.1.0"
kv-log-macro = "=1.0.7"
uuid = { version = "1", features = ["v4"] }
