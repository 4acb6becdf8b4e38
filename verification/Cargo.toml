[package]
name = "tbr_gui"
version = "0.1.0"
edition = "2021"
publish = false

[dependencies]
ab_glyph = "0.2"
anyhow = "1"
cursive = { version = "0.20", default-features = false }
dirs = "5"
gtk4 = { version = "0.7", features = ["v4_10"] }
resvg = "0.36"
