[package]
name = "mapcopy"
version = "0.1.0"
edition = "2021"
publish = false

[dependencies]
log = "*"
minidom = "*"
regex = "*"
simplelog = "*"
