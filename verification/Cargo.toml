[package]
name = "flowy_user"
version = "0.1.0"
edition = "2021"
publish = false

[dependencies]
r2d2 = "*"
