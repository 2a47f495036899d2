[package]
name = "file_eraser"
version = "0.1.0"
edition = "2021"
publish = false

[dependencies]
flume = "*"
rand = "0.8"
