[package]
name = "weasel_rs"
version = "0.1.0"
edition = "2021"
publish = false

[dependencies]
rand = "0.8.5"
unicode-normalization = "0.1"
unicode-segmentation = "1"
clap = { version = "4", features = ["derive"] }
