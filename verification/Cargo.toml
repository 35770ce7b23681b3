[package]
name = "coordinator"
version = "0.1.0"
edition = "2021"
publish = false

[dependencies]
actix-web = { version = "4", default-features = false, features = ["macros"] }
dotenv = "0.15"
log = "0.4"
pretty_env_logger = "*"
serde = { version = "1", features = ["derive"] }
