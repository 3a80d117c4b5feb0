[package]
name = "cubeland"
version = "0.1.0"
edition = "2021"
publish = false

[dependencies]
bit-set = "*"
cgmath = "*"
gl = "*"
noise = "*"
time = "0.1"
