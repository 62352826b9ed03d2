[package]
name = "fas_framework"
version = "0.1.0"
edition = "2021"
publish = false

[dependencies]
affinity = "*"
crossbeam-channel = "*"
spin_sleep = "*"
