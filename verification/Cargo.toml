[package]
name = "cflib_rust"
version = "0.1.0"
edition = "2021"
publish = false

[dependencies]
pyo3 = "*"
pyo3-stub-gen = "*"
pyo3-stub-gen-derive = "*"
pyo3-async-runtimes = { version = "*", features = ["tokio-runtime"] }
tokio = { version = "*", features = ["rt-multi-thread", "sync", "time", "macros"] }
futures = "*"
crazyflie-lib = "*"
crazyflie-link = "*"
