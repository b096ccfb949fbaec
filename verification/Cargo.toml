[package]
name = "compact_bar"
version = "0.1.0"
edition = "2021"
publish = false

[dependencies]
zellij-tile = "*"
ansi_term = "*"
itertools = "*"
