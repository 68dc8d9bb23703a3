[package]
name = "mekena"
version = "0.1.0"
edition = "2021"
publish = false

[dependencies]
flume = "*"
tokio = { version = "*", features = ["full"] }
futures = "*"
async-trait = "*"
dashmap = "*"
thiserror = "*"
miette = "*"
