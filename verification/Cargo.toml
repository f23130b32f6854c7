[package]
name = "qdcrop"
version = "0.1.0"
edition = "2021"
publish = false

[dependencies]
anyhow = "*"
clap = "*"
image = "*"
imageproc = "*"
nalgebra = "*"
rayon = "*"
webp = "*"
