[package]
name = "vad_rs"
version = "0.1.0"
edition = "2021"
publish = false

[dependencies]
pyo3 = "=0.22.6"
ort = { version = "=2.0.0-rc.15", default-features = false, features = ["std", "load-dynamic"] }
rubato = "=0.16.2"
rustfft = "=6.4.1"
