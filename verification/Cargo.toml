[package]
name = "battle_net_oauth"
version = "0.1.0"
edition = "2021"
publish = false

[dependencies]
serde = { version = "=1.0.229", features = ["derive"] }
serde_json = { version = "=1.0.154", features = ["raw_value"] }
serde_with = { version = "3", default-features = false, features = ["std"] }
surf = "=2.3.2"
url = "=2.5.8"
