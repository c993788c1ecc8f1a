[package]
name = "pvpn"
version = "0.1.0"
edition = "2021"
publish = false

[dependencies]
clap = "*"
env_logger = "*"
glob = "*"
log = "*"
reqwest = { version = "*", default-features = false, features = ["blocking"] }
serde_json = "*"
