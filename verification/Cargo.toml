[package]
name = "youtube_map"
version = "0.1.0"
edition = "2021"
publish = false

[dependencies]
actix = "0.13"
actix-cors = "0.6"
actix-web = "4"
bson = { version = "2", features = ["chrono-0_4"] }
chrono = "0.4"
dotenv = "0.15"
env_logger = "0.10"
futures = "0.3"
mongodb = "2"
rand = "0.8"
regex = "1"
reqwest = { version = "0.11", default-features = false, features = ["json", "rustls-tls"] }
serde = { version = "1", features = ["derive"] }
serde_json = "1"
url = "2"
