[package]
name = "tender_component"
version = "0.1.0"
edition = "2021"
publish = false

[dependencies]
anyhow = "1"
ed25519-dalek = "2"
hex = "0.4"
serde = { version = "1", features = ["derive"] }
serde_json = "1"
sha2 = "0.10"
wasmtime = { version = "42.0.1", default-features = false, features = ["runtime", "component-model", "cranelift", "std"] }
