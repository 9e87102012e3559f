[package]
name = "skeravar"
version = "0.1.0"
edition = "2021"
publish = false

[dependencies]
skrifa = "*"
write-fonts = { version = "*", features = ["read"] }
