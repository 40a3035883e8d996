[package]
name = "subtensor_registration"
version = "0.1.0"
edition = "2021"
publish = false

[dependencies]
sp-core = "=21.0.0"
sp-io = "=23.0.0"
sp-runtime = "=24.0.0"
substrate-fixed = "=0.5.9"
