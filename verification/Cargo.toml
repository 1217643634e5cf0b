[package]
name = "wiki2md"
version = "0.1.0"
edition = "2021"

[dev-dependencies]
nom = "7"
