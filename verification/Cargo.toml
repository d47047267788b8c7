[package]
name = "raytracer"
version = "0.1.0"
edition = "2021"
publish = false

[dependencies]
image = { version = "0.24", default-features = false, features = ["png"] }
nalgebra = "0.32"
rand = "0.8"
rayon = "1"
enum_dispatch = "0.3"
fltk = "1"
fltk-theme = "*"
