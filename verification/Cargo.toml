[package]
name = "cu"
version = "0.1.0"
edition = "2021"
publish = false

[dependencies]
csv = "1"
regex = "1"
structopt = "0.3"
exitfailure = "0.5"
failure = "0.1"
