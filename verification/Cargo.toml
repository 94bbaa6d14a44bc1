[package]
name = "knukki"
version = "0.1.0"
edition = "2021"
publish = false

[dependencies]
glow = "=0.4.0"
glutin = "=0.22.1"
golem = "=0.1.7"
