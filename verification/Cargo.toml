[package]
name = "feedback_csv"
version = "0.1.0"
edition = "2021"
publish = false

[dependencies]
simd-json = "*"
chrono = "*"
rayon = "*"
