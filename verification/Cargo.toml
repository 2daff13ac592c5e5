[package]
name = "lenote"
version = "0.1.0"
edition = "2021"
publish = false

[dependencies]
rusqlite = { version = "=0.40.2", features = ["array"] }
rand = "=0.8.8"
base64 = "=0.22.1"
actix-web = { version = "=4.18.1", default-features = false, features = ["macros"] }
actix-files = "=0.6.10"
clap = "=4.6.7"
env_logger = "=0.11.11"
log = "=0.4.34"
tokio = { version = "=1.54.1", features = ["fs", "io-util"] }
serde = { version = "=1.0.229", features = ["derive"] }

[dev-dependencies]
regex = "=1.13.1"
