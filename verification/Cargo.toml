[package]
name = "pystruct"
version = "0.1.0"
edition = "2021"
publish = false

[dependencies]
byteorder = "=1.5.0"
num-bigint = "=0.5.1"
num-traits = "=0.2.19"
