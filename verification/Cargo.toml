[package]
name = "derive_builder"
version = "0.1.0"
edition = "2021"
publish = false

[dependencies]
derive_builder_core = "0.1"
quote = "0.3"
syn = { version = "0.11", features = ["full"] }
