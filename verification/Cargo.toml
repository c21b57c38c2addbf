[package]
name = "three_body"
version = "0.1.0"
edition = "2021"
publish = false

[dependencies]
softfp = "*"
rustc_apfloat = "=0.2.3"
macroquad = "=0.4.16"
