[package]
name = "cos_client"
version = "0.1.0"
edition = "2021"
publish = false

[dependencies]
hmac = "0.12"
sha1 = "0.10"
hex = "0.4"
base64 = "0.13"
url = "2"
serde = { version = "1", features = ["derive"] }
serde_json = "1"
quick-xml = { version = "0.36", features = ["serialize"] }
tokio = { version = "1", features = ["fs", "io-util", "rt", "macros"] }
reqwest = { version = "0.12", default-features = false }
