[package]
name = "incremental_png"
version = "0.1.0"
edition = "2021"
publish = false

[dependencies]
heapless = "0.8"
miniz_oxide = "0.8"
anyhow = "1"
clap = { version = "4", features = ["derive"] }
