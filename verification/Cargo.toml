[package]
name = "kurokku"
version = "0.1.0"
edition = "2021"
publish = false

[dependencies]
anyhow = "*"
log = "*"
serde = { version = "*", features = ["derive"] }
serde_json = "*"
esp-idf-svc = "*"
