[package]
name = "diaryx_storage_gdrive"
version = "0.1.0"
edition = "2021"
publish = false

[dependencies]
base64 = "=0.22.1"
serde = { version = "=1.0.229", features = ["derive"] }
serde_json = "=1.0.154"
extism-pdk = "=1.4.1"
diaryx_plugin_sdk = { version = "0.1", features = ["http", "secrets"] }
