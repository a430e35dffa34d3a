[package]
name = "m2-syn"
version = "0.1.0"
edition = "2021"
publish = false
