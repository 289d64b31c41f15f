[package]
name = "linspace"
version = "0.1.0"
edition = "2021"
publish = false

[dependencies]
numscale = "=0.1.0"
bulks = "=0.1.5"
