[package]
name = "brush"
version = "0.1.0"
edition = "2021"
publish = false

[dependencies]
tokio = { version = "1", default-features = false, features = ["sync", "rt"] }
humantime = "2"
serde_json = "1"
serde_yaml = "0.9"
glam = "*"
image = { version = "0.25", default-features = false, features = ["png", "jpeg"] }
walkdir = "2"
nalgebra = "*"
rayon = "1"
indicatif = { version = "*", features = ["rayon"] }
colored = "*"
anyhow = "1"
clap = { version = "4", features = ["derive"] }
rand = "*"
