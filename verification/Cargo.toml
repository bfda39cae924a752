[package]
name = "transfer_client"
version = "0.1.0"
edition = "2021"
publish = false

[dependencies]
anyhow = "*"
flate2 = "*"
reqwest = { version = "*", default-features = false, features = ["rustls-tls", "multipart", "json"] }
serde = { version = "*", features = ["derive"] }
tar = "*"
tempfile = "*"
tokio = { version = "*", default-features = false, features = ["rt", "fs", "io-util"] }
tokio-util = "*"
url = "*"
walkdir = "*"
zip = { version = "*", default-features = false, features = ["deflate"] }
