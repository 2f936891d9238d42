[package]
name = "pig_pen"
version = "0.1.0"
edition = "2021"
publish = false

[dependencies]
anyhow = "*"
clap = { version = "*", features = ["derive"] }
rand = "=0.9.5"
sha2 = "=0.10.9"
wasmtime = "=48.0.5"
wasmtime-wasi = "=48.0.5"
