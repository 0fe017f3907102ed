[package]
name = "atosl"
version = "0.1.0"
edition = "2021"
publish = false

[dependencies]
anyhow = "=1.0.104"
gimli = "=0.34.0"
memmap = "=0.7.0"
object = { version = "=0.40.0", features = ["write"] }
symbolic-common = "=13.9.0"
symbolic-demangle = "=13.9.0"
