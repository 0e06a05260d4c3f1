[package]
name = "phunk"
version = "0.1.0"
edition = "2021"
publish = false

[dependencies]
serde_json = "1"
serde = { version = "1", features = ["derive"] }
reqwest = { version = "*", default-features = false, features = ["stream"] }
tokio = { version = "1", features = ["rt-multi-thread", "macros", "sync"] }
futures-util = "*"
scraper = "*"
dirs = "*"
uuid = { version = "1", features = ["v4"] }
