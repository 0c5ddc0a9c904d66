[package]
name = "notedeck_columns"
version = "0.1.0"
edition = "2021"
publish = false

[dependencies]
nostrdb = "*"
tracing = "0.1"
