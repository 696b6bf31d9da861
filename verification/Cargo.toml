[package]
name = "pbh_core"
version = "0.1.0"
edition = "2021"
publish = false

[dependencies]
anyhow = "1"
crc32fast = "1"
flate2 = "1"
ipnet = "2"
lzma-rs = "0.3"
maxminddb = "*"
reqwest = { version = "0.12", default-features = false, features = ["blocking", "rustls-tls"] }
rhai = "1"
serde = { version = "1", features = ["derive"] }
serde_json = "1"
serde_yaml = "0.9"
sha2 = "0.10"
socket2 = { version = "0.5", features = ["all"] }
thiserror = "1"
tracing = "0.1"
