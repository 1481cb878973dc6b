[package]
name = "enum_access"
version = "0.1.0"
edition = "2021"
publish = false

[dependencies]
syn = "1.0"
quote = "1.0"
proc-macro2 = "1.0"
