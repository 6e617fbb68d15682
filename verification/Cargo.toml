[package]
name = "chio"
version = "0.1.0"
edition = "2021"
publish = false

[dependencies]
rand = "=0.8.8"
serde = { version = "=1.0.229", features = ["derive"] }
serde_json = "=1.0.151"
pixels = "=0.2.0"
winit = { version = "=0.24.0", features = ["serde"] }
winit_input_helper = "=0.9.0"
