[package]
name = "daisychain"
version = "0.1.0"
edition = "2021"
publish = false

[dependencies]
strum = "0.24"
strum_macros = "0.24"
