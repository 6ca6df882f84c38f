[package]
name = "interpreter_experiments"
version = "0.1.0"
edition = "2021"
publish = false

[dependencies]
im = "15.1.0"
