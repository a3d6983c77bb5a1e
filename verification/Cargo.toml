[package]
name = "kroeg-cellar"
version = "0.1.0"
edition = "2021"
publish = false

[dependencies]
postgres-protocol = "=0.4.1"
bytes = "=0.4.12"
fallible-iterator = "=0.2.0"
futures = "=0.3.34"
async-std = "=1.13.2"
async-trait = "=0.1.92"
serde_json = "=1.0.154"
