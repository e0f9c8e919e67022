[package]
name = "fdt_props"
version = "0.1.0"
edition = "2021"
publish = false

[dependencies]
fallible-iterator = "0.2"
unsafe_unwrap = "0.1"
