[package]
name = "extender"
version = "0.1.0"
edition = "2021"
publish = false

[dependencies]
bincode = "1.3"
crc32fast = "1"
serde = { version = "1", features = ["derive"] }
anyhow = "1"
clap = { version = "4", features = ["derive"] }
tokio = { version = "1", features = ["full"] }
tracing = "0.1"
tracing-subscriber = { version = "0.3", features = ["env-filter"] }
zbus = { version = "4", default-features = false, features = ["tokio"] }
futures-util = "0.3"
