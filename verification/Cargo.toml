[package]
name = "sfx_engine"
version = "0.1.0"
edition = "2021"
publish = false

[dependencies]
bit-set = "=0.11.1"
cgmath = "=0.18.0"
num = "=0.4.3"
num-traits = "=0.2.19"
pitch_calc = "=0.12.0"
sample = "=0.10.0"
