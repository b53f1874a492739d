[package]
name = "akri_discovery"
version = "0.1.0"
edition = "2021"
publish = false

[dependencies]
blake2 = "0.9"
tokio = { version = "1", features = ["rt-multi-thread", "macros", "sync", "time", "net"] }
tokio-stream = "0.1"
tonic = "0.12"
prost = "0.13"
tower = { version = "0.4", features = ["util"] }
hyper-util = { version = "0.1", features = ["tokio"] }
futures = "0.3"
log = "0.4"
env_logger = "0.11"
anyhow = "1"
serde = { version = "1", features = ["derive"] }
serde_yaml = "0.9"
async-trait = "0.1"
zeroconf = "*"
