[package]
name = "orbital_sim"
version = "0.1.0"
edition = "2021"
publish = false

[dependencies]
bytemuck = { version = "1", features = ["derive"] }
cgmath = "0.18"
egui = "0.19"
egui-wgpu = "0.19"
egui_winit_platform = "0.16"
env_logger = "0.9"
instant = "0.1"
log = "0.4"
pollster = "0.2"
winit = "0.27"
