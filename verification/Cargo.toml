[package]
name = "tquic_sqp"
version = "0.1.0"
edition = "2021"
publish = false

[dependencies]
bytes = "1"
env_logger = "0.10"
log = "0.4"
mio = { version = "0.8", features = ["net", "os-poll"] }
pyo3 = { version = "0.20", features = ["extension-module"] }
