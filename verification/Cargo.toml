[package]
name = "psoscheduler"
version = "0.1.0"
edition = "2021"
publish = false

[dependencies]
rand = "0.8"
ndarray = "0.15"
ndarray-rand = "0.14"
