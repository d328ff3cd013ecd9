[package]
name = "scope_arena"
version = "0.1.0"
edition = "2021"
publish = false

[dependencies]
futures-channel = "=0.3.34"
fxhash = "=0.2.1"
keyboard-types = "=0.7.0"
serde = { version = "=1.0.229", features = ["derive"] }
serde_json = "=1.0.154"
slab = "=0.4.12"
tracing = "0.1"
