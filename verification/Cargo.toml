[package]
name = "rookie"
version = "0.1.0"
edition = "2021"
publish = false

[dependencies]
regex = "1"
uuid = { version = "1", features = ["v4"] }
chrono = "0.4"
chrono-tz = "*"
serde = { version = "1", features = ["derive"] }
serde_json = "1"
tokio = { version = "1", features = ["full"] }
tokio-tungstenite = "*"
tungstenite = "*"
futures-util = "0.3"
rusqlite = { version = "*", features = ["bundled"] }
glob = "0.3"
clap = { version = "4", features = ["derive"] }
log = "0.4"
env_logger = "*"
daemonize = "*"
