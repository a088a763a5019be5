[package]
name = "angryether"
version = "1.0.0"
edition = "2021"
publish = false

[dependencies]
anyhow = "1"
chrono = { version = "0.4", features = ["serde"] }
clap = "4"
colored = "*"
futures = "0.3"
if-addrs = "*"
ipnetwork = "*"
pnet = "*"
rand = "*"
serde = { version = "1", features = ["derive"] }
serde_json = "1"
surge-ping = "*"
tokio = { version = "1", features = ["full"] }
