[package]
name = "listing_watch"
version = "0.1.0"
edition = "2021"
rust-version = "1.95"
publish = false

[dependencies]
scraper = "=0.29.0"
teloxide = { version = "=0.17.0", default-features = false, features = ["macros", "ctrlc_handler", "rustls"] }
# Not named in the code: teloxide depends on it, and its later releases ask
# for a newer compiler than the rust-version above.
takecell = "<0.1.2"
tokio = { version = "=1.54.1", features = ["rt-multi-thread", "macros"] }
tokio-cron-scheduler = "=0.15.1"
reqwest = { version = "=0.12.28", default-features = false, features = ["blocking", "rustls-tls"] }
serde_any = "=0.4.1"
dotenv = "=0.15.0"
pretty_env_logger = "=0.5.0"
