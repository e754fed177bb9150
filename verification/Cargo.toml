[package]
name = "focal_node"
version = "0.1.0"
edition = "2021"
publish = false

[dependencies]
blake3 = "1"
postcard = { version = "1", features = ["use-std"] }
serde = { version = "1", features = ["derive"] }
thiserror = "2"
getrandom = "0.3"
tokio = { version = "1", features = ["sync", "time", "rt", "macros"] }
futures-util = "0.3"

[dev-dependencies]
tempfile = "3"
