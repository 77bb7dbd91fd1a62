[package]
name = "ccelerate"
version = "0.1.0"
edition = "2021"
publish = false

[dependencies]
base64 = "=0.22.1"
bstr = "1"
glob = "=0.3.4"
regex-syntax = "=0.8.11"
twox-hash = "=2.1.5"
anyhow = "=1.0.104"
tokio = { version = "=1.54.1", features = ["full"] }
actix-web = "=4.18.1"
clap = { version = "=4.6.7", features = ["derive"] }
serde = { version = "=1.0.229", features = ["derive"] }
serde_json = "=1.0.154"
toml = "=0.8.23"
rusqlite = { version = "=0.40.2", features = ["bundled"] }
rusqlite_migration = "=2.6.0"
reqwest = { version = "=0.12.28", features = ["blocking", "json"] }
ratatui = "=0.30.2"
crossterm = "=0.29.0"
uuid = { version = "=1.29.0", features = ["v4"] }
chrono = "=0.4.45"
tempfile = "=3.27.0"
futures = "=0.3.34"
parking_lot = "=0.12.5"
include_dir = "=0.7.4"
log = "=0.4.35"
async-recursion = "=1.2.0"
