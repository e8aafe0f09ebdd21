[package]
name = "loose_cannon"
version = "0.1.0"
edition = "2021"
publish = false

[dependencies]
bevy = { version = "=0.12.1", default-features = false }
bevy_rapier3d = { version = "=0.23.0", default-features = false, features = ["dim3"] }
image = { version = "0.24", default-features = false, features = ["png"] }
itertools = "=0.12.1"
rand = "=0.8.8"
winit = { version = "0.28", default-features = false, features = ["x11"] }
