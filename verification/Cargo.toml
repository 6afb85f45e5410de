[package]
name = "wave_sim"
version = "0.1.0"
edition = "2021"
publish = false

[dependencies]
ndarray = "0.15"
bevy = { version = "0.9", default-features = false, features = ["bevy_asset", "bevy_winit", "render", "png", "x11"] }
bevy_rapier3d = "0.20"
bevy_simple_tilemap = "0.10"
