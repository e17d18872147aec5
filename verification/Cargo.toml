[package]
name = "bader"
version = "0.1.0"
edition = "2021"
publish = false

[dependencies]
atomic-counter = "1.0"
clap = { version = "=3.0.0-beta.2", default-features = false, features = ["std", "cargo"] }
indicatif = "0.15"
