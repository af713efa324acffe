[package]
name = "lineart"
version = "0.1.0"
edition = "2021"
publish = false

[dependencies]
ab_glyph = "*"
anyhow = "*"
clap = { version = "*", features = ["derive"] }
image = "*"
imageproc = "*"
log = "*"
photon-rs = "*"
