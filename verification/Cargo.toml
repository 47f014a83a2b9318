[package]
name = "muonfp"
version = "1.3.0"
edition = "2021"
publish = false

[dependencies]
chrono = { version = "0.4", features = ["serde"] }
config = { version = "0.14", default-features = false, features = ["ini"] }
ctrlc = "3"
env_logger = "0.11"
hostname = "0.4"
log = "0.4"
pnet = "0.35"
serde = { version = "1", features = ["derive"] }
serde_json = "1"
