[package]
name = "peillute"
version = "0.1.0"
edition = "2021"
publish = false

[dependencies]
pnet = "*"
tokio = { version = "1", features = ["rt-multi-thread", "macros", "net", "io-util", "io-std", "sync", "signal", "time"] }
serde = { version = "1", features = ["derive"] }
rmp-serde = "*"
serde_json = "1"
rusqlite = "*"
log = "0.4"
env_logger = "*"
clap = { version = "4", features = ["derive"] }
chrono = "0.4"
lazy_static = "1"
