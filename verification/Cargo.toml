[package]
name = "proof_of_latency"
version = "0.1.0"
edition = "2021"
publish = false

[dependencies]
sha3 = "=0.10.9"
num-bigint = "=0.4.8"
num-integer = "=0.1.47"
glass_pumpkin = "=1.9.1"
