[package]
name = "muehle"
version = "0.1.0"
edition = "2021"
publish = false

[dependencies]
itertools = "0.13"
rayon = "1"
good-web-game = { version = "0.6", default-features = false }
