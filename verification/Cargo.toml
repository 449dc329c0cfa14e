[package]
name = "first_rank"
version = "0.1.0"
edition = "2021"
publish = false

[dependencies]
chrono = "0.4"
chrono-tz = "0.10"
itertools = "0.14"
rand = "0.9"
