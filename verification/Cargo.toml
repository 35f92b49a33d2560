[package]
name = "crawl_trials"
version = "0.1.0"
edition = "2021"
publish = false

[dependencies]
hashbrown = { version = "0.14", features = ["serde"] }
url = "2"
anyhow = "1"
chromiumoxide = { version = "0.5", default-features = false, features = ["tokio-runtime"] }
chrono = { version = "0.4", features = ["serde"] }
clap = { version = "4", features = ["derive"] }
crossbeam = "0.8"
futures = "0.3"
indicatif = "0.17"
log = "0.4"
mongodb = "2"
pretty_env_logger = "0.5"
serde = { version = "1", features = ["derive"] }
serde_json = "1"
tokio = { version = "1", features = ["full"] }
trust-dns-resolver = "0.22"
