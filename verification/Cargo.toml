[package]
name = "cyb_model"
version = "0.1.0"
edition = "2021"
publish = false

[dependencies]
serde = { version = "=1.0.229", features = ["derive"] }
serde_json = "=1.0.154"
memmap2 = "=0.9.12"
half = "=2.7.1"
toml = "=0.8.23"
clap = { version = "=4.6.7", features = ["derive"] }
env_logger = "=0.11.11"
log = "=0.4.35"
bytemuck = "=1.25.2"
miniz_oxide = "0.8"
