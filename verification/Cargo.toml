[package]
name = "image_tiers"
version = "0.1.0"
edition = "2021"
publish = false

[dependencies]
image = "*"
