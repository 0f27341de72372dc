[package]
name = "supervisor"
version = "0.1.0"
edition = "2021"
publish = false

[dependencies]
anomaly = "=0.2.0"
crossbeam-channel = "=0.5.17"
ibc = "=0.6.2"
ics23 = "=0.6.5"
itertools = "=0.10.5"
toml = "=0.5.11"
tracing = "=0.1.44"
