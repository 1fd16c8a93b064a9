[package]
name = "galaxy_image"
version = "0.1.0"
edition = "2021"
publish = false

[dependencies]
png = "0.17"
bmp = "0.5"
jpeg-decoder = "0.3"
jpeg-encoder = "0.6"
exr = "1"
