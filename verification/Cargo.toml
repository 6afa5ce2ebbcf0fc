[package]
name = "distributor"
version = "0.1.0"
edition = "2021"
publish = false

[dependencies]
lasso = "0.5"
futures = "0.3"
futures-timer = "3"
anyhow = "1"
