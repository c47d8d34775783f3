[package]
name = "querysense"
version = "0.1.0"
edition = "2021"
publish = false

[dependencies]
ammonia = "4"
axum = "0.7"
chrono = "0.4"
clap = { version = "4", features = ["derive"] }
csv = "1"
dotenvy = "0.15"
eyre = "0.6"
futures = "0.3"
http = "1"
reqwest = { version = "0.12", default-features = false, features = ["json", "gzip", "deflate", "rustls-tls"] }
rusqlite = { version = "*", features = ["bundled"] }
serde = { version = "1", features = ["derive"] }
serde_json = "1"
serde_urlencoded = "0.7"
sqlite-vec = "*"
tokio = { version = "1", features = ["rt-multi-thread", "net", "signal", "time", "macros"] }
tracing = "0.1"
zerocopy = "0.8"
