[package]
name = "spot_ui"
version = "0.1.0"
edition = "2021"
publish = false

[dependencies]
ratatui = "0.29"
unicode-width = "0.2"
