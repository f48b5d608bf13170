[package]
name = "findeverything"
version = "0.1.0"
edition = "2021"
publish = false

[dependencies]
regex = "*"
grep-regex = "*"
grep-matcher = "*"
anyhow = "*"
chrono = "*"
clap = { version = "*", features = ["derive"] }
crossbeam-channel = "*"
humansize = "*"
ignore = "*"
indicatif = "*"
num_cpus = "*"
serde = { version = "*", features = ["derive"] }
sysinfo = "*"
toml = "*"

[dev-dependencies]
hex = "*"
