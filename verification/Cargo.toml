[package]
name = "sim_core"
version = "0.1.0"
edition = "2021"
publish = false

[dependencies]
rand = "0.8"
serde = { version = "1", features = ["derive"] }
nalgebra-glm = "*"
winit = "0.26"
wgpu = "0.12"
bytemuck = "1"
pollster = "0.2"
