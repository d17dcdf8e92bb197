[package]
name = "ssroute"
version = "0.1.0"
edition = "2021"
publish = false

[dependencies]
anyhow = "1"
futures = "0.3"
nix = { version = "0.29", features = ["signal", "process", "ioctl"] }
rtnetlink = "0.14"
serde_json = "1"
shadowsocks = "1"
tokio = { version = "1", features = ["full"] }
tracing = "0.1"
tracing-subscriber = { version = "0.3", features = ["env-filter"] }
zbus = { version = "4", default-features = false, features = ["tokio"] }
