[package]
name = "raspy"
version = "0.1.0"
edition = "2021"
publish = false

[dependencies]
anyhow = "1"
async-trait = "0.1"
futures-util = "0.3"
indicatif = "0.17"
matchit = "0.7"
reqwest = { version = "0.11", default-features = false, features = ["stream", "rustls-tls"] }
scraper = "0.18"
tokio = { version = "1", features = ["rt-multi-thread", "macros", "sync", "io-util", "fs"] }
url = "2"
