[package]
name = "dga"
version = "0.1.0"
edition = "2021"
publish = false

[dependencies]
scraper = "=0.27.0"
base64 = "=0.23.1"
chrono = "=0.4.45"
reqwest = { version = "=0.13.5", features = ["gzip", "brotli", "deflate", "query", "form"] }
tokio = { version = "=1.53.2", features = ["rt-multi-thread", "macros"] }
