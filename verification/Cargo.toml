[package]
name = "terrain_stream"
version = "0.1.0"
edition = "2021"
publish = false

[dependencies]
srtm = "=0.1.1"
bytemuck = { version = "=1.25.2", features = ["derive"] }
cgmath = "=0.18.0"
env_logger = "=0.10.2"
pollster = "=0.3.0"
wgpu = "=0.17.2"
winit = "=0.28.7"
