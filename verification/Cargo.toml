[package]
name = "ptz_overlay"
version = "0.1.0"
edition = "2021"
publish = false

[dependencies]
ctrlc = "3"
nalgebra = "0.32"
