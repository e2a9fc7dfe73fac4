[package]
name = "brt"
version = "0.1.0"
edition = "2021"
publish = false

[dependencies]
humansize = "2"
procfs = "0.17"
uzers = "0.12"
ratatui = "0.29"
crossterm = "0.28"
color-eyre = "0.6"
