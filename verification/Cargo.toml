[package]
name = "monkey_interpreter"
version = "0.1.0"
edition = "2021"
publish = false

[dependencies]
rustyline = "*"
