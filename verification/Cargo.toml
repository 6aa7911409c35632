[package]
name = "genepool"
version = "0.1.0"
edition = "2021"
publish = false

[dependencies]
rand = "0.7"
rand_distr = "0.2"
bevy = { version = "0.5", default-features = false, features = ["render"] }
bevy_rapier2d = "0.10"
