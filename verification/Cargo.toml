[package]
name = "nova"
version = "0.1.0"
edition = "2021"
publish = false

[dependencies]
serde = { version = "1", features = ["derive"] }
serde_json = "1"
toml = "0.8"
chrono = "0.4"
uuid = { version = "1", features = ["v4"] }
rand = "0.8"
thiserror = "1"
