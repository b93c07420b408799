[package]
name = "chat"
version = "0.3.0"
edition = "2021"
publish = false

[dependencies]
uuid = { version = "1", features = ["v4"] }
toml = "*"
serde = "1"
serde_derive = "1"
log = "0.4"
env_logger = "*"
dotenv = "*"
