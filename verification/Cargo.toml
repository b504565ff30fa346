[package]
name = "nitro_hal"
version = "0.1.0"
edition = "2021"
publish = false

[dependencies]
serde = { version = "1", features = ["derive"] }
serde_json = "1"
eframe = { version = "*", default-features = false, features = ["glow", "x11", "default_fonts"] }
