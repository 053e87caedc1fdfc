[package]
name = "musesp"
version = "0.1.0"
edition = "2021"
publish = false

[dependencies]
winit = "0.30"
wgpu = "25"
glyphon = "0.9"
tokio = { version = "1", features = ["rt-multi-thread", "sync", "fs", "time"] }
toml = "0.8"
usvg = "0.45"
resvg = "0.45"
tiny-skia = "0.11"
bytemuck = { version = "1", features = ["derive"] }
async-trait = "0.1"
image = { version = "0.25", default-features = false, features = ["png", "jpeg"] }
