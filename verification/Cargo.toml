[package]
name = "zw"
version = "0.1.0"
edition = "2021"

[dependencies]
atty = "0.2"
structopt = "0.3"
