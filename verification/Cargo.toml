[package]
name = "asgore_core"
version = "0.1.0"
edition = "2021"
publish = false

[dependencies]
regex = "1"
hex = "0.4"
csv = "1"
clipboard = "0.5"
