[package]
name = "toroidal_life"
version = "0.1.0"
edition = "2021"
publish = false

[dependencies]
rand = "0.8"
wgpu = "0.14"
winit = "0.27"
glam = "0.22"
bytemuck = { version = "1", features = ["derive"] }
log = "0.4"
env_logger = "0.10"
pollster = "0.3"
