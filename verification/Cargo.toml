[package]
name = "smart_brite"
version = "0.1.0"
edition = "2021"
publish = false

[dependencies]
anyhow = "1"
chrono = { version = "0.4", default-features = false, features = ["clock", "std", "serde"] }
esp-idf-svc = "*"
esp32-nimble = "*"
futures = { version = "0.3", features = ["thread-pool"] }
log = "0.4"
rand = "0.8"
rgb = { version = "0.8", features = ["serde"] }
serde = { version = "1", features = ["derive"] }
serde_json = "1"
