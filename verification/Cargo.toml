[package]
name = "broadcast_chat"
version = "0.1.0"
edition = "2021"
publish = false

[dependencies]
serde_json = "1"
serde = { version = "1", features = ["derive"] }
tokio = { version = "1", features = ["full"] }
tokio-websockets = { version = "*", features = ["client", "server", "sha1_smol", "fastrand"] }
futures-util = { version = "0.3", features = ["sink"] }
http = "1"
