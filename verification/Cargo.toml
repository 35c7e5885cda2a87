[package]
name = "prime_accelerator"
version = "0.1.0"
edition = "2021"
publish = false

[dependencies]
regex = "1"
rayon = "1"
num_cpus = "1"
once_cell = "1"
anyhow = "1"
clap = { version = "4", features = ["derive"] }
colored = "2"
serde = { version = "1", features = ["derive"] }
serde_json = "1"
toml = "0.8"
sysinfo = "0.31"
pyo3 = "0.22"
napi = "2"
napi-derive = "2"
