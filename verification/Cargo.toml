[package]
name = "ip2char"
version = "0.1.0"
edition = "2021"
publish = false

[dependencies]
anyhow = "1"
async-compression = { version = "0.4", features = ["tokio", "zstd", "gzip"] }
bytes = "1"
futures = "0.3"
ipnetwork = "0.20"
packet = "0.1"
serde = { version = "1", features = ["derive"] }
thiserror = "1"
tokio = { version = "1", features = ["full"] }
tokio-serial = "5.4"
tokio-util = { version = "0.7", features = ["codec"] }
toml = "0.8"
tracing = "0.1"
tracing-subscriber = "0.3"
tun = { version = "0.6", features = ["async"] }
