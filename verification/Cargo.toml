[package]
name = "lumol_energy"
version = "0.1.0"
edition = "2021"
publish = false

[dependencies]
caldyn = "*"
chemfiles = "*"
rand = "*"
toml = "*"
