[package]
name = "voxel_terrain"
version = "0.1.0"
edition = "2021"
publish = false

[dependencies]
bevy = { version = "0.11", default-features = false }
noise = "0.8"
