[package]
name = "font_dataset"
version = "0.1.0"
edition = "2021"
publish = false

[dependencies]
skrifa = "*"
memmap2 = "*"
walkdir = "*"
shellexpand = "*"
