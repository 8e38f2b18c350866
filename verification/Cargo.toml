[package]
name = "birdlobby"
version = "0.1.0"
edition = "2021"
publish = false

[dependencies]
uuid = { version = "1", features = ["v4"] }
rand = "0.8"
actix = "0.13"
actix-web = "4"
actix-web-actors = "4"
actix-files = "0.6"
serde = { version = "1", features = ["derive"] }
serde_json = "1"
env_logger = "0.11"
