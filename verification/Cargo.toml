[package]
name = "qs_gateway"
version = "0.1.0"
edition = "2021"
publish = false

[dependencies]
serde_json = { version = "*", features = ["preserve_order"] }
hyper = { version = "*", features = ["full"] }
hyper-util = { version = "*", features = ["full"] }
http-body-util = "*"
tokio = { version = "*", features = ["full"] }

[dev-dependencies]
serde_qs = "*"
