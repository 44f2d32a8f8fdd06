[package]
name = "operune_application"
version = "0.4.0"
edition = "2021"
publish = false

[dependencies]
arc-swap = "=1.9.3"
secrecy = "=0.10.3"
serde = { version = "=1.0.229", features = ["derive"] }
thiserror = "=2.0.21"
tokio = { version = "=1.54.1", features = ["sync", "time", "rt", "macros"] }
wasmtime = { version = "=36.0.20", default-features = false, features = ["std", "runtime", "component-model", "cranelift", "wat"] }
