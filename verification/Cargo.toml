[package]
name = "screenshot"
version = "0.1.0"
edition = "2021"
publish = false

[dependencies]
chrono = { version = "0.4", default-features = false, features = ["clock"] }
egui = "0.28"
egui-winit = { version = "0.28", default-features = false, features = ["x11"] }
env_logger = { version = "0.11", default-features = false }
image = { version = "0.25", default-features = false, features = ["png"] }
pollster = "0.3"
winit = { version = "0.29", default-features = false, features = ["x11", "rwh_06"] }
