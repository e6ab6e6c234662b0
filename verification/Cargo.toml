[package]
name = "world_grid"
version = "0.1.0"
edition = "2021"
publish = false

[dependencies]
rand = { version = "=0.9.5", features = ["small_rng"] }
rand_distr = "=0.5.1"
rayon = "=1.12.0"
itertools = "=0.15.0"
