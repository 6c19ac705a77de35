[package]
name = "mdzen"
version = "0.1.0"
edition = "2021"
publish = false

[dependencies]
anyhow = "*"
eframe = { version = "*", default-features = false, features = ["glow", "default_fonts", "x11"] }
egui = "*"
image = { version = "*", default-features = false, features = ["png", "jpeg"] }
pulldown-cmark = "*"
reqwest = { version = "*", default-features = false, features = ["blocking"] }
syntect = { version = "*", default-features = false, features = ["default-fancy"] }
