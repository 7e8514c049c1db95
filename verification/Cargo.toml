[package]
name = "expedition33-continente-inacabado"
version = "0.1.0"
edition = "2021"
publish = false

[dependencies]
image = { version = "*", default-features = false, features = ["png"] }
minifb = "*"
nalgebra-glm = "*"
