[package]
name = "bevy_dev"
version = "0.1.0"
edition = "2021"
publish = false

[dependencies]
random_color = "*"
