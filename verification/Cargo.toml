[package]
name = "update_downloader"
version = "0.1.0"
edition = "2021"
publish = false

[dependencies]
regex = "1"
reqwest = { version = "0.12", default-features = false, features = ["json", "stream"] }
md-5 = "0.10"
quick-xml = "0.36"
serde = { version = "1", features = ["derive"] }
serde_json = "1"
tokio = { version = "1", features = ["rt-multi-thread", "macros", "fs", "io-util", "sync", "time"] }
futures-util = "*"
zip = { version = "*", default-features = false, features = ["deflate"] }
tauri = { version = "2", default-features = false }
