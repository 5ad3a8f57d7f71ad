[package]
name = "hub"
version = "0.1.0"
edition = "2021"
publish = false

[dependencies]
anyhow = "1"
chrono = "0.4"
dirs = "*"
futures-util = "0.3"
messages = "*"
quick-xml = { version = "*", features = ["serialize"] }
reqwest = { version = "*", default-features = false, features = ["stream"] }
rinf = "*"
serde = { version = "1", features = ["derive"] }
serde_json = "1"
size = "*"
tokio = { version = "1", features = ["fs", "io-util", "rt", "macros", "time"] }
