[package]
name = "rocstr"
version = "0.1.0"
edition = "2021"
publish = false

[dependencies]
bytes = "1"
postgres-types = "0.2"
serde = "1"
