[package]
name = "bloop"
version = "0.1.0"
edition = "2021"
publish = false

[dependencies]
macroquad = { version = "0.4", default-features = false }
macroquad-particles = "0.2"
