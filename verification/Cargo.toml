[package]
name = "post_registry"
version = "0.1.0"
edition = "2021"
publish = false

[dependencies]
uuid = { version = "=1.29.0", features = ["v4"] }
near-sdk = { version = "=5.29.1", features = ["unit-testing"] }
ipfs-api = { version = "=0.11.0", default-features = false, features = ["with-hyper-rustls"] }
tokio = { version = "=1.54.1", features = ["rt", "rt-multi-thread"] }
