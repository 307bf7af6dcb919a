[package]
name = "paper_format_checker"
version = "0.1.0"
edition = "2021"
publish = false

[dependencies]
serde = { version = "1", features = ["derive"] }
serde_json = "1"
zip = "*"
lopdf = "*"
reqwest = { version = "*", default-features = false, features = ["json"] }
log = "0.4"
env_logger = "*"
