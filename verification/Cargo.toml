[package]
name = "soe_network_parser"
version = "0.1.0"
edition = "2021"
publish = false

[dependencies]
clap = { version = "3.2", features = ["derive"] }
h1emu-core = "*"
hex = "0.4"
path-absolutize = "3"
serde = { version = "1", features = ["derive"] }
serde_derive = "1"
serde_json = "1"
