[package]
name = "notify_me"
version = "0.1.0"
edition = "2021"
publish = false

[dependencies]
chrono = "*"
clap = "*"
dialoguer = "*"
env_logger = "*"
log = "*"
notify-rust = "*"
rusqlite = { version = "*", features = ["bundled"] }
tokio = { version = "*", features = ["macros", "rt-multi-thread", "time"] }
