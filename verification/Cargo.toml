[package]
name = "password_cracking"
version = "0.1.0"
edition = "2021"
publish = false

[dependencies]
sha2 = "*"
num_cpus = "*"
zip = "*"
anyhow = "*"
clap = { version = "*", features = ["derive"] }
crossbeam-channel = "*"
indicatif = "*"
rayon = "*"
