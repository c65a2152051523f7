[package]
name = "digiko_dex"
version = "0.1.0"
edition = "2021"
publish = false

[dependencies]
klever-sc = "*"

[dev-dependencies]
klever-sc-scenario = "*"
