[package]
name = "lib_rv32"
version = "0.1.0"
edition = "2021"
publish = false

[dependencies]
clap = "*"
lazy_static = "*"
log = "*"
serde = "*"
serde_json = "*"
