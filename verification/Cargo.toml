[package]
name = "physics_sandbox"
version = "0.1.0"
edition = "2021"
publish = false

[dependencies]
bevy = { version = "0.11", default-features = false }
bevy_rapier2d = { version = "0.22", default-features = false, features = ["dim2"] }
perlin_noise = "1.0.1"
rand = "0.8"
