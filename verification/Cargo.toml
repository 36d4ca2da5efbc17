[package]
name = "fulmen"
version = "0.1.0"
edition = "2021"
publish = false

[dependencies]
ash = "0.38"
ash-window = "0.13"
winit = { version = "0.30", default-features = false, features = ["rwh_06", "x11"] }
log = "0.4"
env_logger = "0.11"
thiserror = "1"
