[package]
name = "rbpt"
version = "0.1.0"
edition = "2021"

[dependencies]
clap = "4"
console = "0.15"
indicatif = "0.17"
rayon = "1"
