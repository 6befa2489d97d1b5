[package]
name = "traffic_exporter"
version = "0.1.0"
edition = "2021"
publish = false

[dependencies]
pcap = "2"
pnet = "0.35"
prometheus = "0.13"
reqwest = { version = "0.12", default-features = false, features = ["json"] }
serde = { version = "1", features = ["derive"] }
serde_json = "1"
tokio = { version = "1", features = ["full"] }
tracing = "0.1"
tracing-subscriber = { version = "0.3", features = ["json", "env-filter"] }
warp = "0.3"
