[package]
name = "tikd_r"
version = "0.1.0"
edition = "2021"
publish = false

[dependencies]
clap = { version = "4", features = ["derive"] }
futures = "0.3"
reqwest = { version = "0.12", default-features = false, features = ["cookies", "rustls-tls"] }
reqwest_cookie_store = "0.8"
scraper = "=0.29.0"
serde_json = "=1.0.154"
thiserror = "2"
tokio = { version = "1", features = ["fs", "io-util", "macros", "rt-multi-thread", "time"] }
tracing = "0.1"
tracing-subscriber = "0.3"
url = "=2.5.8"
