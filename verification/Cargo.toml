[package]
name = "grass"
version = "0.1.0"
edition = "2021"
publish = false

[dependencies]
serde = { version = "=1.0.229", features = ["derive"] }
toml = "=0.8.23"
mpi = "=0.8.2"
heck = "0.5"
