[package]
name = "xqa_terminal"
version = "0.1.0"
edition = "2021"
publish = false

[dependencies]
rand = "0.8"
anyhow = "1"
log = "0.4"
env_logger = "*"
fontdue = "*"
winit = "*"
winit_input_helper = "*"
pixels = "*"
sdl2 = "*"
