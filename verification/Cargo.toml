[package]
name = "shi"
version = "0.1.0"
edition = "2021"
publish = false

[dependencies]
colored = "*"
rustyline = "15"
rustyline-derive = "*"
thiserror = "*"
