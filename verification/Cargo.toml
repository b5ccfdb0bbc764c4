[package]
name = "registrar"
version = "0.1.0"
edition = "2021"
publish = false

[dependencies]
urlencoding = "*"
hmac = "*"
sha1 = "*"
base64 = "*"
serde = { version = "*", features = ["derive"] }
serde_json = "*"
serde_yaml = "*"
crossbeam = "*"
anyhow = "*"
log = "*"
env_logger = "*"
tokio = { version = "*", features = ["rt", "time", "macros"] }
reqwest = { version = "*", default-features = false }
