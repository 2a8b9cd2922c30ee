[package]
name = "cellular_automaton"
version = "0.1.0"
edition = "2021"
publish = false

[dependencies]
nalgebra = { version = "*", default-features = false, features = ["std"] }
conv = "0.3"
palette = "0.5"
piston = "*"
piston2d-graphics = "*"
piston2d-opengl_graphics = "*"
pistoncore-glutin_window = "*"
