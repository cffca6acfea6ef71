[package]
name = "engine"
version = "0.1.0"
edition = "2021"
publish = false

[dependencies]
anyhow = "=1.0.104"
ash = "=0.37.3"
glam = "=0.24.2"
glfw = { version = "=0.52.0", default-features = false, features = ["vulkan"] }
jpegxl-sys = "=0.6.1"
log = { version = "=0.4.34", features = ["std"] }
mimalloc = "=0.1.52"
