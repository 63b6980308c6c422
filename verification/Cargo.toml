[package]
name = "gravity_kernel"
version = "0.1.0"
edition = "2021"
publish = false

[dependencies]
bevy = { version = "0.9", default-features = false, features = ["bevy_asset", "bevy_winit", "render", "png", "x11"] }
bevy_asset_loader = "0.14"
bevy_turborand = "0.4"
console_error_panic_hook = "0.1"
iyes_loopless = "0.9"
noisy_bevy = "0.2"
