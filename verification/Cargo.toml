[package]
name = "condition_sanitizers"
version = "0.1.0"
edition = "2021"
publish = false

[dependencies]
clvmr = "*"
