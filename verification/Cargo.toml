[package]
name = "svg_to_ico"
version = "0.1.0"
edition = "2021"
publish = false

[dependencies]
clap = "4"
ico = "*"
resvg = "*"
tiny-skia = "*"
usvg = "*"
