[package]
name = "mls_engine"
version = "0.1.0"
edition = "2021"
publish = false

[dependencies]
anyhow = "*"
base64 = "*"
chrono = "*"
crossterm = "*"
openmls = "*"
openmls_basic_credential = "*"
openmls_memory_storage = "*"
openmls_rust_crypto = "*"
openmls_traits = "*"
ratatui = "*"
serde = { version = "*", features = ["derive"] }
serde_json = "*"
tokio = { version = "*", features = ["full"] }
uuid = { version = "*", features = ["v4"] }
