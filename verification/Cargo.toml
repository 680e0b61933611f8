[package]
name = "egui_skia"
version = "0.1.0"
edition = "2021"
publish = false

[dependencies]
egui = "*"
skia-safe = "*"
