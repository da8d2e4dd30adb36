[package]
name = "fissura"
version = "0.1.0"
edition = "2021"
publish = false

[dependencies]
kamadak-exif = "*"
walkdir = "*"
serde = { version = "*", features = ["derive"] }
serde_json = "*"
chrono = "*"
handlebars = "*"
pulldown-cmark = "*"
tempfile = "*"
rand = "*"
