[package]
name = "shadecore"
version = "0.1.0"
edition = "2021"
publish = false

[dependencies]
anyhow = "1"
crossbeam-channel = "0.5"
glow = "0.16"
glutin = "0.31"
glutin-winit = "0.4"
midir = "0.10"
notify = "6"
raw-window-handle = "0.5"
rosc = "0.10"
serde = { version = "1", features = ["derive"] }
serde_json = "1"
winit = { version = "0.29", features = ["rwh_05"] }
