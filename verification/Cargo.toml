[package]
name = "terbulator"
version = "0.1.0"
edition = "2021"
publish = false

[dependencies]
vte = "0.13"
base64 = "0.22"
image = { version = "0.25", default-features = false, features = ["png", "jpeg", "gif", "bmp"] }
winit = "0.30"
softbuffer = "0.4"
cosmic-text = "0.11"
arboard = { version = "3", default-features = false }
portable-pty = "0.8"
clap = { version = "4", features = ["derive"] }
env_logger = "0.11"
log = "0.4"
serde = { version = "1", features = ["derive"] }
serde_yaml = "0.9"
thiserror = "1"
