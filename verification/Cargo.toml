[package]
name = "notes_api"
version = "0.1.0"
edition = "2021"
publish = false

[dependencies]
actix-cors = "=0.7.2"
actix-web = "=4.18.1"
confik = "=0.15.13"
deadpool-postgres = "=0.14.2"
dotenvy = "=0.15.7"
env_logger = "=0.11.11"
log = "=0.4.35"
ordermap = { version = "=0.5.12", features = ["serde"] }
serde = { version = "=1.0.229", features = ["derive"] }
serde_json = "=1.0.154"
tokio = { version = "=1.54.1", features = ["macros", "rt-multi-thread"] }
tokio-pg-mapper = "=0.2.0"
tokio-pg-mapper-derive = "=0.2.0"
tokio-postgres = "=0.7.18"
