[package]
name = "gtakeout"
version = "0.1.0"
edition = "2021"
publish = false

[dependencies]
kamadak-exif = "*"
serde_json = "*"
clap = { version = "*", features = ["derive"] }
rayon = "*"
walkdir = "*"
