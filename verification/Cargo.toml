[package]
name = "axum_distributed_routing"
version = "0.1.0"
edition = "2021"
publish = false

[dependencies]
axum = "*"
inventory = "*"
serde = { version = "*", features = ["derive"] }
stringcase = "*"
