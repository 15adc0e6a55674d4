[package]
name = "timeslice"
version = "0.1.0"
edition = "2021"
publish = false

[dependencies]
lazy_static = "1"
esp-idf-hal = "*"
esp-idf-svc = "*"
