[package]
name = "animecix"
version = "0.1.0"
edition = "2021"
publish = false

[dependencies]
ring = "0.17"
base64 = "0.22"
serde = { version = "1", features = ["derive"] }
serde_json = "1"
reqwest = { version = "0.12", default-features = false, features = ["blocking", "json", "rustls-tls"] }
