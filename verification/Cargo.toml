[package]
name = "raymaze"
version = "0.1.0"
edition = "2021"
publish = false

[dependencies]
image = { version = "0.24", default-features = false, features = ["png", "jpeg"] }
rodio = "0.17"
rusttype = "0.9"
winit = { version = "0.28", default-features = false, features = ["x11"] }
