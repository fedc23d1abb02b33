[package]
name = "raytracer"
version = "0.1.0"
edition = "2021"
publish = false

[dependencies]
image = { version = "*", default-features = false, features = ["png"] }
serde = { version = "1", features = ["derive"] }
serde_derive = "1"
serde_yaml = "*"
