[package]
name = "request_dispatch"
version = "0.1.0"
edition = "2021"
publish = false

[dependencies]
url = "0.5"
anymap = "0.12"
num_cpus = "1"
time = "0.1"
hyper = { version = "0.10", default-features = false }
