[package]
name = "rexmq"
version = "0.1.0"
edition = "2021"
publish = false

[dependencies]
bytes = "=1.12.1"
crc32fast = "=1.5.4"
rkyv = "=0.7.46"
ahash = "=0.8.12"
uuid = { version = "=1.29.0", features = ["v4"] }
rand = "=0.8.8"
fastrand = "=2.5.0"
serde = { version = "=1.0.229", features = ["derive"] }
toml = "=0.8.23"
thiserror = "=1.0.69"
clap = { version = "=4.6.7", features = ["derive"] }
tokio = { version = "=1.54.1", features = ["full"] }
bincode = "=1.3.3"
dashmap = "=6.2.1"
anyhow = "=1.0.104"
async-trait = "=0.1.92"
hdrhistogram = "=7.6.0"
quinn = { version = "0.11", default-features = false, features = ["runtime-tokio", "rustls-ring"] }
rustls = { version = "0.23", default-features = false, features = ["ring", "std", "tls12"] }
tokio-tungstenite = "0.24"
futures-util = "=0.3.34"
