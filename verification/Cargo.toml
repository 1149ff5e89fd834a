[package]
name = "hp41c"
version = "0.5.0"
edition = "2021"
publish = false

[dependencies]
crossterm = "*"
