[package]
name = "ectf_2024_lib"
version = "0.1.0"
edition = "2021"
publish = false
