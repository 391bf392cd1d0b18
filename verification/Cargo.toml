[package]
name = "rustsni"
version = "0.2.2"
edition = "2021"
publish = false

[dependencies]
rustbus = "0.19.3"
thiserror = "2"
