[package]
name = "kinetix_engine"
version = "0.1.0"
edition = "2021"
publish = false

[dependencies]
anyhow = "1"
bytemuck = { version = "1", features = ["derive"] }
ffmpeg-next = "*"
raw-window-handle = "0.6"
serde = { version = "1", features = ["derive"] }
tokio = { version = "1", features = ["process", "sync", "time", "rt"] }
uuid = { version = "1", features = ["v4"] }
wgpu = "*"
