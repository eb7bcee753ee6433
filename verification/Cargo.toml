[package]
name = "lunar_patcher"
version = "0.1.0"
edition = "2021"
publish = false

[dependencies]
base64 = "0.22"
chrono = "0.4"
rand = "0.8"
serde_json = "1"
eframe = { version = "0.29", default-features = false, features = ["glow", "default_fonts", "x11"] }
image = { version = "0.25", default-features = false, features = ["png"] }
open = "5"
rfd = "0.15"
