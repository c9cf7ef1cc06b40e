[package]
name = "ddp_router"
version = "0.1.0"
edition = "2021"
publish = false

[dependencies]
anyhow = "1"
bson = "2"
futures-util = "0.3"
mongodb = "2.8"
serde_json = "1"
tokio = { version = "1", features = ["rt", "sync", "time"] }
