[package]
name = "mariners_warner"
version = "0.1.0"
edition = "2021"
publish = false

[dependencies]
chrono = "0.4"
config = { version = "0.14", default-features = false, features = ["toml"] }
futures = "0.3"
log = "0.4"
reqwest = "0.12"
serde = { version = "1", features = ["derive"] }
serde_json = "1"
simplelog = "0.12"
tokio = { version = "1", features = ["rt-multi-thread", "time"] }
