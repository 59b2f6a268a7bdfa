[package]
name = "blog"
version = "0.1.0"
edition = "2021"
publish = false

[dependencies]
chrono = "0.4"
clap = "2"
maud = "*"
ordinal = "*"
pulldown-cmark = "*"
syntect = { version = "*", default-features = false, features = ["default-fancy"] }
regex = "1"
