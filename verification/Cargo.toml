[package]
name = "mia"
version = "0.1.0"
edition = "2021"
publish = false

[dependencies]
bevy = { version = "0.11", default-features = false, features = ["bevy_asset"] }
bevy_asset_loader = { version = "0.17", features = ["standard_dynamic_assets"] }
bevy_common_assets = { version = "0.7", features = ["yaml"] }
bevy_rapier2d = { version = "0.22", default-features = false, features = ["dim2"] }
rand = "0.8"
serde = { version = "1", features = ["derive"] }
