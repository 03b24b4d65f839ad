[package]
name = "shelfie"
version = "0.1.0"
edition = "2021"
publish = false

[dependencies]
actix-files = "=0.1.7"
actix-multipart = "=0.1.5"
actix-web = { version = "=1.0.9", default-features = false }
chrono = "=0.4.19"
env_logger = "=0.6.2"
futures = "=0.1.31"
rand = "=0.7.3"
tera = "=0.11.20"

[dev-dependencies]
bytes = "=0.4.12"
