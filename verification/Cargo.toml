[package]
name = "zeroclaw_core"
version = "0.1.0"
edition = "2021"
publish = false

[dependencies]
regex = "=1.13.1"
base64 = "=0.22.1"
serde = { version = "=1.0.229", features = ["derive"] }
serde_json = "=1.0.154"
toml = "=0.8.23"
anyhow = "=1.0.104"
sha2 = "0.10"
uuid = { version = "1", features = ["v4"] }
prost = "0.13"
directories = "5"
