[package]
name = "npy_codec"
version = "0.1.0"
edition = "2021"
publish = false

[dependencies]
py_literal = "*"
num-traits = "*"
ndarray = "*"
zip = "*"
thiserror = "*"
