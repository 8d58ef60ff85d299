[package]
name = "festats"
version = "0.1.0"
edition = "2021"
publish = false

[dependencies]
anyhow = "1.0"
inline-python = "*"
statrs = "0.13"
termion = "1.5"
tui = "0.14"
unicode-width = "0.1"
