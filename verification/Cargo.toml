[package]
name = "smile"
version = "0.1.0"
edition = "2021"
publish = false

[dependencies]
unicode-segmentation = "1"
unicode-width = "*"
ratatui = "*"
clap = { version = "4", features = ["derive"] }
color-eyre = "*"
