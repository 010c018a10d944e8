[package]
name = "bilibili_transcript"
version = "0.1.0"
edition = "2021"
publish = false

[dependencies]
regex = "1"
chrono = "0.4"
serde = { version = "1", features = ["derive"] }
serde_json = "1"
toml = "0.8"
reqwest = { version = "0.12", default-features = false, features = ["json", "multipart", "rustls-tls"] }
tokio = { version = "1", features = ["rt-multi-thread", "macros", "sync", "fs", "time"] }
rusqlite = { version = "0.31", features = ["bundled"] }
dirs = "5"
shellexpand = "3"
base64 = "0.22"
anyhow = "1"
once_cell = "1"
log = "0.4"
async-trait = "0.1"
