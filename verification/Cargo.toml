[package]
name = "net_stalker"
version = "0.1.0"
edition = "2021"
publish = false

[dependencies]
scraper = "*"
rss = "2"
sha2 = "0.10"
url = "2"
chrono = "0.4"
chrono-tz = "*"
anyhow = "1"
axum = "0.7"
tokio = { version = "1", features = ["full"] }
reqwest = { version = "0.12", default-features = false, features = ["charset", "rustls-tls"] }
ctrlc = "3"
tracing = "0.1"
tracing-subscriber = { version = "0.3", features = ["chrono"] }
