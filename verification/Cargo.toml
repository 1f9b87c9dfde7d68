[package]
name = "hillclimb"
version = "0.1.0"
edition = "2021"
publish = false

[dependencies]
ndarray = "=0.15.6"
rand = "=0.8.8"
