[package]
name = "tilemap"
version = "0.1.0"
edition = "2021"
publish = false

[dependencies]
fast-srgb8 = "*"
rgb = "*"
serde = { version = "*", features = ["derive"] }
simple-blit = "*"
