[package]
name = "game_engine"
version = "0.1.0"
edition = "2021"
publish = false

[dependencies]
bytemuck = { version = "1", features = ["derive"] }
env_logger = "0.11.10"
pollster = "0.4.0"
wgpu = "29.0.3"
winit = "0.30.13"
