[package]
name = "chef"
version = "0.1.0"
edition = "2021"
publish = false

[dependencies]
gc-arena = "0.5"
thiserror = "1"
