[package]
name = "diorama"
version = "0.1.0"
edition = "2021"
publish = false

[dependencies]
image = { version = "0.25", default-features = false, features = ["jpeg", "png"] }
minifb = "*"
nalgebra-glm = "*"
once_cell = "1"
rand = "0.8"
