[package]
name = "social_card"
version = "0.1.0"
edition = "2021"
publish = false

[dependencies]
usvg = "=0.23.0"
resvg = "=0.23.0"
tiny-skia = "0.6"
webp = "0.2"
fontdb = "0.9"
reqwest = { version = "0.11", default-features = false, features = ["blocking"] }
