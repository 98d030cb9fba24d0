[package]
name = "with-async-context"
version = "0.1.2"
edition = "2021"
publish = false

[dependencies]
log = "0.4"
pin-project = "1"
