[package]
name = "plugin_host"
version = "0.1.0"
edition = "2021"
publish = false

[dependencies]
serde = { version = "1", features = ["derive"] }
serde_json = "1"
base64 = "0.22"
urlencoding = "2"
uuid = { version = "1", features = ["v4"] }
libloading = "0.8"
zip = "2"
dirs = "5"
