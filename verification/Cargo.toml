[package]
name = "cpp_guard"
version = "0.1.0"
edition = "2021"
publish = false

[dependencies]
lang-c = "*"
thiserror = "*"
