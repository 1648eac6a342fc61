[package]
name = "emblium"
version = "0.1.0"
edition = "2021"
publish = false

[dependencies]
shakmaty = "0.27"
fltk = "1.4"
