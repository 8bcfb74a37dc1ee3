[package]
name = "jvm_decompiler"
version = "0.1.0"
edition = "2021"
publish = false

[dependencies]
fixedbitset = { version = "=0.4.2", default-features = false }
petgraph = { version = "=0.6.5", default-features = false }
