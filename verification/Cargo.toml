[package]
name = "decoreco"
version = "1.0.0"
edition = "2021"
publish = false

[dependencies]
clap = "2"
colored = "2"
indicatif = "0.17"
man = "0.3"
prettytable-rs = "0.10"
rayon = "1"
tempfile = "3"
term_size = "0.3"
