[package]
name = "tokval"
version = "2.2.2"
edition = "2021"
publish = false

[dependencies]
anyhow = "1"
clap = "2.33"
crossbeam = "0.8"
log = "0.4"
num_cpus = "1"
reqwest = { version = "0.11", features = ["blocking"] }
simplelog = "0.10"
