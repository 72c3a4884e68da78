[package]
name = "maybe_special"
version = "0.1.0"
edition = "2021"
publish = false

[dependencies]
indexmap = "*"
litrs = "*"
proc-macro2 = "*"
quote = "*"
venial = "*"
