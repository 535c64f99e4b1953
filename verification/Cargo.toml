[package]
name = "starrail_codes"
version = "0.1.0"
edition = "2021"
publish = false

[dependencies]
actix-web = "=4.15.0"
async-trait = "=0.1.92"
chrono = "=0.4.45"
config = "=0.15.27"
env_logger = "=0.11.11"
futures = "=0.3.34"
futures-util = "=0.3.34"
log = "=0.4.34"
mongodb = { version = "=3.9.1", features = ["snappy-compression", "zlib-compression", "zstd-compression"] }
regex = "=1.13.1"
reqwest = { version = "=0.13.5", default-features = false, features = ["json", "query"] }
scraper = "=0.27.0"
serde = { version = "=1.0.229", features = ["derive"] }
serde_json = "=1.0.151"
tokio = { version = "=1.53.2", features = ["sync", "time", "macros", "rt-multi-thread"] }
tokio-cron-scheduler = "=0.15.1"
