[package]
name = "webcrawler"
version = "0.1.0"
edition = "2021"
publish = false

[dependencies]
url = "=2.5.8"
scraper = "=0.29.0"
ego-tree = "=0.11.1"
blake3 = "=1.8.7"
rand = "=0.8.8"
chrono = "=0.4.45"
uuid = { version = "=1.29.0", features = ["v4"] }
serde = { version = "=1.0.229", features = ["derive"] }
serde_json = "=1.0.154"
tokio = { version = "=1.54.1", features = ["full"] }
reqwest = { version = "=0.12.28", default-features = false, features = ["rustls-tls", "stream"] }
futures = "=0.3.34"
thiserror = "=2.0.21"
envy = "=0.4.2"
dotenvy = "=0.15.7"
deadpool-redis = "=0.23.1"
redis = "=1.8.1"
aws-config = { version = "=1.13.0", features = ["behavior-version-latest"] }
aws-sdk-s3 = "=1.157.0"
aws-sdk-sqs = "=1.119.0"
aws-sdk-dynamodb = "=1.136.0"
