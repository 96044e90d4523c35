[package]
name = "updater"
version = "0.1.0"
edition = "2021"

[dependencies]
enum-map = "2"
