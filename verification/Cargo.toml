[package]
name = "rtalk"
version = "0.1.0"
edition = "2021"
publish = false

[dependencies]
bytes = "1"
env_logger = { version = "0.10", default-features = false }
futures = "0.3"
log = "0.4"
tokio = { version = "1", features = ["io-std", "io-util", "macros", "net", "rt-multi-thread", "sync"] }
tokio-util = { version = "0.7", features = ["codec"] }
