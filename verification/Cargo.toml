[package]
name = "zoom_capture"
version = "0.1.0"
edition = "2021"
publish = false

[dependencies]
clap = { version = "=3.2.25", features = ["derive"] }
lazy_static = "=1.5.1"
