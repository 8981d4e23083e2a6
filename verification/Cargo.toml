[package]
name = "resvg_compose"
version = "0.1.0"
edition = "2021"
publish = false

[dependencies]
log = "*"
rosvgtree = "*"
svgtypes = "*"
