[package]
name = "patch-data"
version = "0.1.0"
edition = "2021"
publish = false

[dependencies]
serde_json = { version = "=1.0.154", features = ["preserve_order"] }
md5 = "=0.7.0"
uuid = { version = "=1.29.0", features = ["v4"] }
rand = "=0.8.8"
tokio = { version = "=1.54.1", features = ["full"] }
reqwest = { version = "=0.11.27", default-features = false, features = ["rustls-tls"] }
futures = "=0.3.34"
dashmap = "=5.5.3"
lazy_static = "=1.5.1"
serde = { version = "=1.0.229", features = ["derive"] }
serde_derive = "=1.0.229"
serde_yaml = "=0.9.34"
