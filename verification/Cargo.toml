[package]
name = "ark_algebra_py"
version = "0.1.0"
edition = "2021"
publish = false

[dependencies]
ark-bls12-381 = "0.4"
ark-ec = { version = "0.4", features = ["parallel"] }
ark-ff = { version = "0.4", features = ["parallel"] }
ark-poly = { version = "0.4", features = ["parallel"] }
ark-serialize = "0.4"
ark-std = "0.4"
num-traits = "0.2"
pyo3 = "0.19"
rayon = "1"
