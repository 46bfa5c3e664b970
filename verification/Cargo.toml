[package]
name = "ssh_bookmarker"
version = "0.3.0"
edition = "2021"
publish = false

[dependencies]
dirs = "6"
serde = { version = "1", features = ["derive"] }
serde_json = "1"
tokio = { version = "1", features = ["sync", "net", "io-util", "time", "rt", "macros"] }
libsql = { version = "0.9", default-features = false, features = ["core"] }
