[package]
name = "dvdbnd"
version = "0.1.0"
edition = "2021"
publish = false

[dependencies]
aes = "*"
memmap2 = "*"
miniz_oxide = "*"
clap = { version = "*", features = ["derive", "env"] }
rayon = "*"
indicatif = { version = "*", features = ["rayon"] }
