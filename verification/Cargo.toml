[package]
name = "zimcache"
version = "0.1.0"
edition = "2021"
publish = false

[dependencies]
sha2 = "*"
hex = "*"
urlencoding = "*"
serde = { version = "*", features = ["derive"] }
actix-web = "*"
actix-files = "*"
actix-multipart = "*"
futures-util = "*"
async-stream = "*"
tokio = { version = "*", features = ["time"] }
anyhow = "*"
zim-rs = "*"
