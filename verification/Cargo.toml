[package]
name = "genetic_image"
version = "0.1.0"
edition = "2021"
publish = false

[dependencies]
chrono = "0.4"
image = { version = "0.24", default-features = false, features = ["jpeg", "png"] }
rand = "0.8"
rand_isaac = "0.3"
