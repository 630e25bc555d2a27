[package]
name = "wasmer-as"
version = "0.1.0"
edition = "2021"
publish = false

[dependencies]
wasmer = "=7.0.1"
anyhow = "=1.0.104"
