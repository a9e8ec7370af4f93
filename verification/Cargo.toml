[package]
name = "hex_world"
version = "0.1.0"
edition = "2021"
publish = false

[dependencies]
itertools = "0.10"
bevy = { version = "0.9", default-features = false, features = ["bevy_asset", "bevy_winit", "render", "png", "x11"] }
bevy-inspector-egui = "0.14"
