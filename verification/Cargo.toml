[package]
name = "raytracer"
version = "0.1.0"
edition = "2021"
publish = false

[dependencies]
rand = "0.8"
rand_xoshiro = "0.6"
rand_distr = "0.4"
nalgebra = "0.32"
itertools = "0.10"
interpolation = "0.2"
rayon = "1"
structopt = "0.3"
image = { version = "0.24", default-features = false, features = ["png"] }
