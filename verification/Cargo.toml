[package]
name = "midgard_history"
version = "0.1.0"
edition = "2021"
publish = false

[dependencies]
actix-web = { version = "4", default-features = false, features = ["macros"] }
chrono = "0.4"
cron = "0.12"
dotenv = "0.15"
env_logger = "0.10"
futures-util = "0.3"
log = "0.4"
mongodb = "2"
reqwest = { version = "0.11", default-features = false, features = ["rustls-tls"] }
serde = { version = "1", features = ["derive"] }
serde_json = "1"
serde_urlencoded = "0.7"
tokio = { version = "1", features = ["macros", "rt-multi-thread", "time"] }
utoipa = { version = "4", features = ["actix_extras"] }
