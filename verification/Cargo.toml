[package]
name = "sheet_cache"
version = "0.1.0"
edition = "2021"
publish = false

[dependencies]
lru = "*"
serde = { version = "1", features = ["derive"] }
serde_json = "1"
log = "0.4"
ewebsock = { version = "*", default-features = false }
ehttp = { version = "*", default-features = false, features = ["json", "streaming"] }
