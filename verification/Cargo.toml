[package]
name = "gascii"
version = "0.1.0"
edition = "2021"
publish = false

[dependencies]
anyhow = "*"
base64 = "0.13"
clap = { version = "*", features = ["derive"] }
crossbeam = "*"
crossterm = "*"
ctrlc = "*"
fast_image_resize = "*"
image = { version = "*", default-features = false, features = ["png"] }
lz4 = "*"
num_cpus = "*"
rayon = "*"
