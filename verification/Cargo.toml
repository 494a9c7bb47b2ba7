[package]
name = "enimate"
version = "0.1.0"
edition = "2021"
publish = false

[dependencies]
egui = { version = "=0.27.2", default-features = false }
eframe = { version = "=0.27.2", default-features = false, features = ["glow"] }
lyon = "=1.0.19"
rand = "=0.8.8"
bytemuck = { version = "=1.25.2", features = ["derive"] }
tracing-subscriber = "=0.3.23"
