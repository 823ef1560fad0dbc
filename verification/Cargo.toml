[package]
name = "seva"
version = "0.1.0"
edition = "2021"
publish = false

[dependencies]
clap = { version = "4", features = ["derive"] }
directories = "6"

[dev-dependencies]
winnow = "0.7"
