[package]
name = "d3dasm"
version = "0.1.0"
edition = "2021"
publish = false

[dependencies]
arbitrary = "1"
clap = { version = "4", features = ["derive"] }
nostdio = "0.1"
smallvec = "1"
