[package]
name = "boulder"
version = "0.1.0"
edition = "2021"
publish = false

[dependencies]
crc = "=3.4.0"
serde = { version = "=1.0.229", features = ["derive"] }
serde_yaml = "=0.9.34"
sha2 = "0.10"
tracing = "=0.1.44"
url = "=2.5.8"

[dev-dependencies]
hex = "0.4"
