[package]
name = "restrict"
version = "0.0.1"
edition = "2021"
publish = false

[dependencies]
bytesize = "1"
cgroups-rs = "0.3"
clap = "2"
colored = "2"
scopeguard = "1"
