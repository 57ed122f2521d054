[package]
name = "stackctl"
version = "0.1.0"
edition = "2021"
publish = false

[dependencies]
docker-api = "*"
docker-compose-types = "*"
serde = "*"
serde_yaml = "*"
indexmap = "*"
tokio = { version = "*", features = ["rt-multi-thread"] }
futures-util = "*"
