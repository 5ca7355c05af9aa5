[package]
name = "password_policy"
version = "0.1.0"
edition = "2021"

[dependencies]
regex = "1"
