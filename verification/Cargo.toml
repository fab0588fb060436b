[package]
name = "foxterm"
version = "0.1.0"
edition = "2021"
publish = false

[dependencies]
anyhow = "1"
bytemuck = { version = "1", features = ["derive"] }
cgmath = "0.18"
crossbeam = "0.8"
fontdue = "0.7"
nix = "0.23"
serde = { version = "1", features = ["derive"] }
serde_yaml = "0.8"
shellexpand = "2"
thiserror = "1"
vte = "0.10"
vulkano = "0.29"
vulkano-shaders = "0.29"
vulkano-win = "0.29"
winit = "0.26"
winit_input_helper = "0.12"
