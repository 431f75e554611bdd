[package]
name = "test_driver"
version = "0.1.0"
edition = "2021"
publish = false

[dependencies]
proc-macro2 = "1"
