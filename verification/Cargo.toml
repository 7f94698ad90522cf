[package]
name = "watchtower"
version = "0.1.0"
edition = "2021"
publish = false

[dependencies]
bitcoin = "0.29.2"
lightning = "0.0.117"
lightning-persister = "0.0.117"
