[package]
name = "aster_ui"
version = "0.3.0"
edition = "2021"
publish = false

[dependencies]
anyhow = "1"
cosmic-text = "=0.14.2"
fontdb = "*"
image = { version = "0.25", default-features = false, features = ["png"] }
serde = { version = "1", features = ["derive"] }
taffy = "=0.9.2"
thiserror = "2"
tiny-skia = "0.11"
toml = "0.9"
