[package]
name = "retis"
version = "0.1.0"
edition = "2021"
publish = false

[dependencies]
anyhow = "1"
bimap = "=0.6.3"
chrono = "=0.4.45"
clap = { version = "4", features = ["derive"] }
flate2 = "=1.1.10"
libbpf-rs = "*"
log = "0.4"
nix = { version = "0.31", features = ["time"] }
path-clean = "1"
pnet_packet = "=0.35.0"
pyo3 = "0.22"
regex = "=1.13.1"
serde = { version = "1", features = ["derive"] }
serde_json = "1"
serde_with = "3"
signal-hook = "0.3"
