[package]
name = "jet_semantics"
version = "0.1.0"
edition = "2021"
publish = false

[dependencies]
file_paths = "=1.0.0"
hydroper_source_text = "=1.0.3"
rustc_apfloat = "*"
serde = { version = "=1.0.229", features = ["derive"] }
