[package]
name = "terrain_tiles"
version = "0.1.0"
edition = "2021"
publish = false

[dependencies]
image = { version = "=0.23.14", default-features = false, features = ["png"] }
opensimplex_noise_rs = "=0.3.0"
rand = "=0.6.5"
terr = "=0.1.2"
