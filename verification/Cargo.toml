[package]
name = "multidrop"
version = "0.1.0"
edition = "2021"

[dependencies]
crc = "=1.8.1"
heapless = "=0.8.0"
