[package]
name = "sat_visibility"
version = "0.1.0"
edition = "2021"
publish = false

[dependencies]
anyhow = "1"
chrono = "0.4"
libm = "0.2"
sgp4 = "2"
