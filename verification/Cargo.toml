[package]
name = "color"
version = "0.1.0"
edition = "2021"
publish = false

[dependencies]
base16 = "0.2"
unicode-segmentation = "1"
