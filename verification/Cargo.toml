[package]
name = "ramen"
version = "0.1.0"
edition = "2021"
publish = false

[dependencies]
bit_field = "*"
spinning_top = "*"
conquer-once = "*"
