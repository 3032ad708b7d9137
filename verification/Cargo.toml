[package]
name = "sia32"
version = "0.1.0"
edition = "2021"
publish = false

[dependencies]
regalloc2 = "=0.15.2"
smallvec = "=1.16.4"
