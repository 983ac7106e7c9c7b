[package]
name = "auto_morph"
version = "0.1.0"
edition = "2021"
publish = false

[dependencies]
copypasta = { version = "=0.10.2", default-features = false }
core-foundation = "=0.10.1"
core-graphics = "=0.25.0"
eframe = { version = "=0.36.2", default-features = false, features = ["glow", "default_fonts", "x11"] }
egui-file-dialog = { version = "=0.15.0", default-features = false }
enigo = "=0.6.1"
