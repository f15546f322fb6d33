[package]
name = "nlbn"
version = "0.1.0"
edition = "2021"
publish = false

[dependencies]
regex = "1"
clap = { version = "4", features = ["derive"] }
tokio = { version = "1", features = ["rt-multi-thread", "macros", "sync"] }
log = "0.4"
env_logger = "0.11"
chrono = "0.4"
