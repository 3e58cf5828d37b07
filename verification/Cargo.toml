[package]
name = "lisel"
version = "0.1.0"
edition = "2021"
publish = false

[dependencies]
clap = { version = "4", features = ["derive"] }
env_logger = "*"
log = "0.4"
regex = "1"
thiserror = "*"

[dev-dependencies]
nom = "7"
