[package]
name = "megaremove"
version = "0.1.0"
edition = "2021"
publish = false

[dependencies]
iced = { version = "=0.10.0", default-features = false }
iced_futures = "=0.7.0"
futures = "=0.3.34"
