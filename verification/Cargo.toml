[package]
name = "style_chain"
version = "0.1.0"
edition = "2021"
publish = false

[dependencies]
comemo = "*"
ecow = "*"
rustc-hash = "*"
smallvec = "*"
typst-syntax = "*"
typst-utils = "*"
