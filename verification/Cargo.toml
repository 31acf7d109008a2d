[package]
name = "gambit"
version = "0.1.0"
edition = "2021"
publish = false

[dependencies]
ansi_term = "0.12"
clap = { version = "4", features = ["derive"] }
csv = "1"
env_logger = "0.10"
itertools = "0.10"
log = "0.4"
num-bigint = "0.4"
num-traits = "0.2"
rand = "0.8"
rand_chacha = "0.3"
regex = "1"
scanner-rust = "2"
serde = { version = "1", features = ["derive"] }
serde_json = "1"
similar = "2"
solang = { version = "0.3", default-features = false }
solang-parser = "0.3"
tempfile = "3"
