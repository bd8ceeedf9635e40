[package]
name = "fdiff"
version = "0.1.0"
edition = "2021"
publish = false

[dependencies]
clap = "4"
structopt = "0.3"
