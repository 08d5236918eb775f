[package]
name = "entangled"
version = "0.1.0"
edition = "2021"
publish = false

[dependencies]
argh = "0.1"
bevy = { version = "0.12", default-features = false }
console_error_panic_hook = "0.1"
serde = { version = "1", features = ["derive"] }
strum = { version = "0.25", features = ["derive"] }
