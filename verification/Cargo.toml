[package]
name = "delve"
version = "0.1.0"
edition = "2021"
publish = false

[dependencies]
chrono = "0.4"
crossterm = "0.29"
log = "0.4"
num-traits = "0.2"
rand = "0.9"
