[package]
name = "console_engine"
version = "2.6.1"
edition = "2021"
publish = false

[dependencies]
crossterm = "0.26"
unicode-width = "0.1"
