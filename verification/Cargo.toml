[package]
name = "wordforge"
version = "0.1.0"
edition = "2021"
publish = false

[dependencies]
chrono = "0.4"
isolang = "2"
regex = "1"
uuid = { version = "1", features = ["v4"] }
validator = "0.16"
serde = { version = "1", features = ["derive"] }
serde_json = "1"
