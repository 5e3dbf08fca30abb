[package]
name = "opentake"
version = "0.1.0"
edition = "2021"
publish = false

[dependencies]
ffmpeg-sidecar = { version = "*", default-features = false }
image = { version = "0.25", default-features = false, features = ["bmp", "png"] }
same-file = "1"
serde = { version = "1", features = ["derive"] }
serde_json = "1"
