[package]
name = "lms"
version = "0.1.0"
edition = "2021"
publish = false

[dependencies]
seahash = "*"
blake2 = "*"
clap = "*"
indicatif = "*"
env_logger = "*"
log = "*"
rayon = "*"
