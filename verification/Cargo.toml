[package]
name = "mlx_rs"
version = "0.1.0"
edition = "2021"
publish = false

[dependencies]
bindgen = "*"
cc = "*"
cmake = "*"
