[package]
name = "chevalchemy"
version = "0.1.0"
edition = "2021"
publish = false

[dependencies]
anyhow = "1"
bevy = { version = "0.5", default-features = false, features = ["render"] }
bevy_egui = { version = "0.5", default-features = false }
bevy_rapier2d = "0.10"
bevy_webgl2 = "0.5"
console_error_panic_hook = "0.1"
rand = "0.8"
ron = "0.6"
serde = { version = "1", features = ["derive"] }
wasm-bindgen = "0.2"
