[package]
name = "midi_looper"
version = "0.1.0"
edition = "2021"
publish = false

[dependencies]
midly = "0.5"
midir = "0.10"
serde = { version = "1", features = ["derive"] }
serde_yaml = "0.9"
chrono = "0.4"
image = { version = "0.25", default-features = false, features = ["png"] }
iced = { version = "0.14", default-features = false, features = ["tiny-skia", "tokio", "x11"] }
