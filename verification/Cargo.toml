[package]
name = "chat_coordinator"
version = "0.1.0"
edition = "2021"
publish = false

[dependencies]
actix-files = "=0.6.10"
actix-web = "=4.18.1"
actix-web-lab = "=0.23.0"
askama = "=0.12.1"
askama_actix = "=0.14.0"
dotenv = "=0.15.0"
env_logger = "=0.11.11"
futures = "=0.3.34"
rig-core = { version = "=0.11.1", features = ["audio", "image"] }
serde = { version = "=1.0.229", features = ["derive"] }
serde_json = "=1.0.154"
tokio = { version = "=1.54.1", features = ["macros", "rt-multi-thread", "sync"] }
tracing = "=0.1.44"
