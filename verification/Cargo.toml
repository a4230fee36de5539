[package]
name = "mirrorb"
version = "0.9.0"
edition = "2021"
publish = false

[dependencies]
rand = "0.8"
glutin = "0.29"
