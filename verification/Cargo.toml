[package]
name = "motodiag"
version = "0.1.0"
edition = "2021"
publish = false

[dependencies]
serde = { version = "1", features = ["derive"] }
serde_json = "1"
toml = "0.8"
csv = "1"
serialport = { version = "4", default-features = false }
thiserror = "2"
