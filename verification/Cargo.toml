[package]
name = "rantz_random"
version = "0.1.0"
edition = "2021"
publish = false

[dependencies]
fastrand = "*"
