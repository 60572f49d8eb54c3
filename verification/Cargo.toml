[package]
name = "calculator"
version = "0.1.0"
edition = "2021"
publish = false

[dependencies]
itertools = "*"
crossterm = "*"
proc-macro2 = "*"
