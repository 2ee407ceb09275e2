[package]
name = "virtmach"
version = "0.1.0"
edition = "2021"
publish = false

[dependencies]
bytes = "*"
nostd_structs = "*"
log = "*"
simple_logger = "*"
clap = { version = "*", features = ["derive"] }
