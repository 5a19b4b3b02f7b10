[package]
name = "fractal_farlands"
version = "0.1.0"
edition = "2021"
publish = false

[dependencies]
num = "0.4"
softposit = "*"
rayon = "1"
hsv = "*"

[dev-dependencies]
fixed = "1"
