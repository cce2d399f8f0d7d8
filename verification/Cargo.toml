[package]
name = "merge_images"
version = "0.1.0"
edition = "2021"
publish = false

[dependencies]
imagesize = "*"
opencv = "*"
tempfile = "*"
