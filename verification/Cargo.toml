[package]
name = "ledring"
version = "0.1.0"
edition = "2021"
publish = false

[dependencies]
anyhow = "*"
log = "*"
serde = { version = "*", features = ["derive"] }
serde_json = "*"
rgb = "*"
embassy-executor = "*"
embassy-sync = "*"
embassy-time = "*"
embedded-svc = "*"
esp-idf-hal = "*"
esp-idf-svc = "*"
