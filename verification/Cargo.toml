[package]
name = "bangbang"
version = "0.1.0"
edition = "2021"
publish = false

[dependencies]
hecs = "0.10"
serde = { version = "1", features = ["derive"] }
serde_json = "1"
glam = "0.29"
image = { version = "0.25", default-features = false, features = ["png"] }
log = "0.4"
env_logger = "0.11"
winit = "0.30"
wgpu = "23"
pollster = "0.4"
fontdue = "0.9"
bytemuck = { version = "1", features = ["derive"] }
