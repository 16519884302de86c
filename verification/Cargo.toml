[package]
name = "topic_broker"
version = "0.1.0"
edition = "2021"
publish = false

[dependencies]
tokio = { version = "1", features = ["full"] }
warp = "0.3"
futures-util = { version = "0.3", features = ["sink"] }
clap = "2"
reqwest = { version = "0.11", default-features = false, features = ["json"] }
tungstenite = "0.19"
url = "2"
