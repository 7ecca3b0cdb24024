[package]
name = "fae"
version = "0.1.0"
edition = "2021"
publish = false

[dependencies]
ash = "0.31"
vk-mem = "0.2"
winit = "0.24"
nalgebra = "0.25"
