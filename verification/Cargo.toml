[package]
name = "hcms-29xx"
version = "0.1.0"
edition = "2021"
publish = false

[dependencies]
embedded-hal = "1.0"
num-traits = "0.2"
