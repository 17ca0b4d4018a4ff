[package]
name = "space_engine"
version = "0.1.0"
edition = "2021"
publish = false

[dependencies]
rapier3d-f64 = "=0.17.2"
rayon = "=1.12.0"
egui = "=0.20.1"
block-mesh = "=0.2.0"
byteorder = "1"
