[package]
name = "signed_distance_fields"
version = "0.1.0"
edition = "2021"
publish = false

[dependencies]
math_vector = "*"
itertools-num = "*"
palette = "0.6"
image = { version = "0.24", default-features = false, features = ["png"] }
