[package]
name = "rsgss"
version = "0.1.0"
edition = "2021"
publish = false

[dependencies]
image = "*"
owo-colors = "*"
wgpu = "*"
winit = "*"
pollster = "*"
parking_lot = "*"
figment = { version = "*", features = ["toml", "env", "json"] }
serde = { version = "*", features = ["derive"] }
bytemuck = "*"
log = "*"
