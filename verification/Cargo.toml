[package]
name = "arn"
version = "1.1.1"
edition = "2021"
publish = false

[dependencies]
rug = "1"
primal = "0.3"
radix_fmt = "1"
rand = "0.8"
clap = "2"
atty = "0.2"
lazy_static = "1"
