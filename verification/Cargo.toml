[package]
name = "tarot_reader"
version = "0.1.0"
edition = "2021"
publish = false

[dependencies]
chrono = { version = "0.4", features = ["serde"] }
dotenv = "0.15"
env_logger = "0.10"
log = "0.4"
rocket = { version = "0.5", features = ["json"] }
rocket_cors = "0.6"
uuid = { version = "1", features = ["v4", "serde"] }
