[package]
name = "shard_runner"
version = "0.1.0"
edition = "2021"
publish = false

[dependencies]
async-tungstenite = { version = "*", default-features = false }
futures = "0.3"
serde = "1"
tokio = { version = "1", features = ["sync", "time"] }
tracing = "0.1"
typemap_rev = "*"
