[package]
name = "collector"
version = "0.1.0"
edition = "2021"
publish = false

[dependencies]
uname = "0.1"
libbpf-rs = "0.24"
anyhow = "1"
clap = { version = "4", features = ["derive"] }
log = "0.4"
cxx = "1"

[dev-dependencies]
regex = "1"
