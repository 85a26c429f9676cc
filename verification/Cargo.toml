[package]
name = "bpf_math"
version = "0.1.0"
edition = "2021"
publish = false

[dependencies]
bnum = "=0.13.0"
crypto-bigint = { version = "=0.6.1", default-features = false }
fixed-bigint = "=0.1.17"
uint = { version = "=0.10.2", default-features = false }
