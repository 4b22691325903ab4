[package]
name = "kvdb"
version = "0.1.0"
edition = "2021"
publish = false

[dependencies]
elastic-array = "*"
parity-bytes = "*"
parking_lot = "*"
