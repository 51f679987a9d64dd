[package]
name = "houseflow"
version = "0.1.0"
edition = "2021"
publish = false

[dependencies]
hex = "=0.4.3"
rand = "=0.8.8"
semver = { version = "1", features = ["serde"] }
serde = { version = "=1.0.229", features = ["derive"] }
thiserror = "=1.0.69"
toml = "=0.5.11"
url = "=2.5.8"
uuid = { version = "=0.8.2", features = ["serde"] }
