[package]
name = "torrentmanager"
version = "0.1.0"
edition = "2021"
publish = false

[dependencies]
regex = "=1.13.1"
base64-url = "=4.0.1"
hightorrent = "=0.4.1"
hightorrent_api = "=0.3.0"
serde = { version = "=1.0.229", features = ["derive"] }
toml = "=1.1.8"
camino = { version = "=1.2.6", features = ["serde1"] }
snafu = "=0.8.9"
clap = { version = "=4.6.7", features = ["derive"] }
clap-verbosity-flag = "=3.0.4"
tokio = { version = "=1.54.1", features = ["rt", "macros", "fs", "net", "time", "sync"] }
axum = { version = "=0.8.9", features = ["multipart"] }
log = "=0.4.35"
env_logger = "=0.11.11"
dirs = "=7.0.0"
uucore = { version = "=0.12.0", features = ["fsext"] }
temp-file = "=0.2.0"
