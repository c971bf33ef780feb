[package]
name = "ratcrawler"
version = "0.1.0"
edition = "2021"
publish = false

[dependencies]
anyhow = "*"
chrono = "=0.4.45"
clap = { version = "=4.6.7", features = ["derive"] }
env_logger = "*"
futures = "*"
log = "*"
rand = "=0.10.3"
reqwest = { version = "=0.12.28", default-features = false, features = ["rustls-tls", "gzip", "brotli"] }
rusqlite = { version = "=0.40.2", features = ["bundled"] }
scraper = "=0.27.0"
serde = { version = "*", features = ["derive"] }
serde_json = "*"
sha2 = "=0.11.0"
sysinfo = "=0.39.6"
thiserror = "*"
tokio = { version = "=1.53.2", features = ["rt-multi-thread", "macros", "time", "fs", "signal", "sync"] }
url = "=2.5.8"
urlencoding = "=2.1.3"
uuid = { version = "=1.27.0", features = ["v4"] }
warp = { version = "=0.4.3", features = ["server"] }
