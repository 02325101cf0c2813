[package]
name = "rust_prompt"
version = "0.1.0"
edition = "2021"
publish = false

[dependencies]
termion = "*"
