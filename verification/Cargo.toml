[package]
name = "master"
version = "0.1.0"
edition = "2021"
publish = false

[dependencies]
sha1 = "=0.10.7"
sha2 = "=0.10.9"
hmac = "=0.12.1"
hex = "=0.4.3"
base64 = "=0.22.1"
url = "=2.5.8"
chrono = "=0.4.45"
rand = "=0.8.8"
walkdir = "=2.5.0"
sqlx = { version = "=0.8.6", default-features = false, features = ["runtime-tokio", "postgres", "chrono", "uuid"] }
tokio = { version = "=1.54.1", features = ["rt-multi-thread", "macros"] }
uuid = "=1.29.1"
reqwest = { version = "0.12", default-features = false, features = ["rustls-tls", "json"] }
serde = { version = "1", features = ["derive"] }
serde_json = "1"
