[package]
name = "poker_module"
version = "0.1.0"
edition = "2021"
publish = false

[dependencies]
log = "0.4"
spacetimedb = "1"
