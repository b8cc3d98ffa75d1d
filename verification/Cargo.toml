[package]
name = "rt"
version = "0.1.0"
edition = "2021"
publish = false

[dependencies]
fontdue = "0.9"
fontdb = "0.23"
libc = "0.2"
log = "0.4"
env_logger = "0.11"
winit = "0.30"
glutin = "0.32"
glutin-winit = "0.5"
glow = "0.16"
raw-window-handle = "0.6"
egui = "*"
