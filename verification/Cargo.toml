[package]
name = "game_engine"
version = "0.1.0"
edition = "2021"
publish = false

[dependencies]
bincode = "=1.3.3"
bytemuck = { version = "=1.25.2", features = ["derive"] }
env_logger = { version = "=0.11.11", default-features = false }
glam = { version = "=0.25.0", features = ["serde"] }
image = { version = "=0.25.10", default-features = false, features = ["png"] }
log = "=0.4.35"
mp4 = "=0.14.0"
openh264 = "=0.6.6"
pollster = "=0.3.0"
serde = { version = "=1.0.229", features = ["derive"] }
wgpu = { version = "0.19", default-features = false, features = ["wgsl"] }
