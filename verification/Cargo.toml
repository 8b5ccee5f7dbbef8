[package]
name = "flowdesk"
version = "0.1.0"
edition = "2021"
publish = false

[dependencies]
hostname = "0.4"
serde = { version = "1", features = ["derive"] }
serde_json = "1"
dirs = "5"
get_if_addrs = "0.5"
log = "0.4"
env_logger = "0.11"
tokio = { version = "1", features = ["process", "io-util", "sync", "time", "macros", "rt-multi-thread"] }

[dev-dependencies]
regex = "1"
