[package]
name = "shazamio_core"
version = "0.1.0"
edition = "2021"
publish = false

[dependencies]
base64 = "0.22"
crc32fast = "1"
serde = { version = "1", features = ["derive"] }
thiserror = "1"
