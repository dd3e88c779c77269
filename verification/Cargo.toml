[package]
name = "pathtrace"
version = "0.1.0"
edition = "2021"
publish = false

[dependencies]
rand = "=0.10.3"
rayon = "=1.12.0"
indicatif = { version = "=0.18.6", features = ["rayon"] }
