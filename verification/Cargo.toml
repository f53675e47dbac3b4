[package]
name = "euphony"
version = "0.1.0"
edition = "2021"
publish = false

[dependencies]
bytes = "1"
rand = "=0.8.8"

[dev-dependencies]
rosc = "=0.11.4"
