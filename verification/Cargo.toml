[package]
name = "mini-mafia"
version = "0.1.0"
edition = "2021"
publish = false

[dependencies]
anchor-lang = "0.30.1"
rand = "0.8"
