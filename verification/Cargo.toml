[package]
name = "wings_core"
version = "0.1.0"
edition = "2021"
publish = false

[dependencies]
uuid = { version = "1", features = ["serde"] }
sha1 = "0.10"
infer = "*"
tokio = { version = "1", features = ["fs", "io-util", "rt", "rt-multi-thread", "sync", "time", "macros"] }
tokio-util = { version = "0.7", features = ["io", "io-util"] }
reqwest = { version = "0.12", default-features = false, features = ["json", "rustls-tls"] }
axum = "0.8"
serde = { version = "1", features = ["derive"] }
serde_json = "1"
tar = "0.4"
flate2 = "1"
zip = { version = "2", default-features = false, features = ["deflate"] }
async-compression = { version = "0.4", features = ["tokio", "gzip", "xz", "bzip2", "lz4", "zstd"] }
cap-std = "3"
ignore = "0.4"
anyhow = "1"
tracing = "0.1"
