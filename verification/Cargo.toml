[package]
name = "dottodot_studio"
version = "0.1.0"
edition = "2021"
publish = false

[dependencies]
egui = "*"
eframe = { version = "*", default-features = false, features = ["default_fonts", "glow", "x11"] }
image = { version = "*", default-features = false, features = ["png", "jpeg", "bmp"] }
rfd = "*"
rusqlite = { version = "*", features = ["bundled"] }
