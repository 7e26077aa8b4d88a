[package]
name = "esplugin"
version = "0.1.0"
edition = "2021"
publish = false

[dependencies]
encoding_rs = "*"
memchr = "*"
miniz_oxide = "*"
unicase = "*"
