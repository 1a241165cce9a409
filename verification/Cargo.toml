[package]
name = "game"
version = "0.1.0"
edition = "2021"
publish = false

[dependencies]
macroquad = { version = "0.4", default-features = false }
miniquad = "0.4"
log = "0.4"
env_logger = "0.11"
