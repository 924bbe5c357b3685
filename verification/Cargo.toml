[package]
name = "parsable"
version = "0.1.0"
edition = "2021"
publish = false

[dependencies]
regex = "*"
syn = "1"
proc-macro2 = "1"
