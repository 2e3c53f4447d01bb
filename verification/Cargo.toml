[package]
name = "webp_converter"
version = "0.1.0"
edition = "2021"
publish = false

[dependencies]
image = { version = "0.25", default-features = false, features = ["png", "jpeg", "bmp", "webp"] }
walkdir = "2"
dirs = "*"
rfd = "*"
eframe = { version = "0.31", default-features = false, features = ["default_fonts", "glow", "x11"] }
