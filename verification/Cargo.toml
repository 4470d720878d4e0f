[package]
name = "gooseboy_core"
version = "0.1.0"
edition = "2021"
publish = false

[dependencies]
anyhow = "=1.0.104"
env_logger = "=0.11.11"
log = "=0.4.34"
macroquad = "=0.4.16"
parking_lot = "=0.12.5"
