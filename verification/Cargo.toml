[package]
name = "poseidon"
version = "0.1.0"
edition = "2021"
publish = false

[dependencies]
ark-ff = "=0.6.0"
halo2curves = "=0.10.0"
