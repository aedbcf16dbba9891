[package]
name = "velocity_engine"
version = "0.1.0"
edition = "2021"
publish = false

[dependencies]
getrandom = "=0.2.17"
semver = "=1.0.28"
regex = "=1.13.1"
sha2 = "=0.10.9"
md-5 = "=0.10.6"
sha1 = "=0.10.7"
hmac = "=0.12.1"
serde = { version = "=1.0.229", features = ["derive"] }
serde_json = "=1.0.154"
url = "=2.5.8"
fs2 = "=0.4.3"
reqwest = { version = "0.12", default-features = false }
tokio = { version = "1", features = ["rt", "net", "time"] }
