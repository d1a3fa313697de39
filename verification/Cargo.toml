[package]
name = "npm_download_stats"
version = "0.1.0"
edition = "2021"
publish = false

[dependencies]
anyhow = "=1.0.104"
opentelemetry = "=0.30.0"
opentelemetry-otlp = { version = "=0.30.0", default-features = false, features = ["grpc-tonic", "metrics"] }
opentelemetry_sdk = { version = "=0.30.0", features = ["metrics"] }
reqwest = { version = "=0.12.28", default-features = false, features = ["rustls-tls"] }
scraper = "=0.29.0"
tokio = { version = "=1.54.1", features = ["macros", "rt-multi-thread"] }
