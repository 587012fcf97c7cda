[package]
name = "shashin"
version = "0.1.0"
edition = "2021"
publish = false

[dependencies]
bytemuck = { version = "=1.25.2", features = ["derive"] }
clap = { version = "=4.6.7", default-features = false, features = ["std", "derive", "help", "usage", "error-context"] }
dirs = "=7.0.0"
kamadak-exif = "=0.6.1"
garasu = "=0.1.19"
glyphon = "=0.9.0"
image = { version = "=0.25.10", default-features = false, features = ["bmp", "gif", "ico", "jpeg", "png", "tiff", "webp"] }
madori = "=0.1.27"
serde = { version = "=1.0.229", features = ["derive"] }
serde_json = "=1.0.154"
shikumi = "=0.1.1084"
soushi = "=0.1.1"
tokio = { version = "=1.54.1", default-features = false, features = ["rt-multi-thread"] }
tracing = "=0.1.44"
tracing-subscriber = { version = "=0.3.23", default-features = false, features = ["std", "fmt"] }
wgpu = "=25.0.2"
