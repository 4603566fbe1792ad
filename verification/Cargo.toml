[package]
name = "primitive_image"
version = "0.1.0"
edition = "2021"
publish = false

[dependencies]
rand = "0.7"
rand_distr = "0.2"
image = { version = "0.23", default-features = false, features = ["png", "jpeg", "bmp", "gif", "ico"] }
imageproc = "0.22"
structopt = "0.3"
log = "0.4"
simplelog = "0.12"
