[package]
name = "tuned_rs"
version = "0.1.0"
edition = "2021"
publish = false

[dependencies]
anyhow = "1"
configparser = "3"
futures-util = "0.3"
serde = { version = "1", features = ["derive"] }
serde_json = "1"
tokio = { version = "1", features = ["full"] }
tokio-udev = "0.9"
tracing = "0.1"
tracing-subscriber = { version = "0.3", features = ["env-filter"] }
zbus = { version = "4", default-features = false, features = ["tokio"] }
