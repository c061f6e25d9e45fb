[package]
name = "alloc_latency"
version = "0.1.0"
edition = "2021"
publish = false

[dependencies]
voodoo = "=0.2.1"
