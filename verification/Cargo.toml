[package]
name = "ray_tracing_rust"
version = "0.1.0"
edition = "2021"
publish = false

[dependencies]
serde = { version = "=1.0.229", features = ["derive"] }
serde_json = "=1.0.151"
obj-rs = "*"
exr = "=1.74.2"
rayon = "=1.12.0"
rand = "=0.10.3"
