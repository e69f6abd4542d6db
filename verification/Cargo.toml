[package]
name = "underwater_world"
version = "0.1.0"
edition = "2021"
publish = false

[dependencies]
bytemuck = { version = "1", features = ["derive"] }
cgmath = "0.18"
instant = "0.1"
noise = "0.8"
rand = "0.8"
wgpu = "0.17"
winit = "0.28"
