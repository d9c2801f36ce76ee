[package]
name = "tasmota"
version = "0.1.0"
edition = "2021"
publish = false

[dependencies]
serde_json = "*"
serde = { version = "*", features = ["derive"] }
reqwest = { version = "*", default-features = false }
tokio = { version = "*", features = ["macros", "rt-multi-thread"] }
futures = "*"
clap = { version = "*", features = ["derive"] }
config = { version = "*", default-features = false, features = ["json"] }
shellexpand = "*"
ipnet = "*"
log = "*"
pretty_env_logger = "*"
