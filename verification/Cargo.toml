[package]
name = "raymarch"
version = "0.1.0"
edition = "2021"
publish = false

[dependencies]
anyhow = "1"
env_logger = { version = "0.11", default-features = false }
log = "0.4"
pollster = "0.3"
