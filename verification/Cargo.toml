[package]
name = "crux_codegen"
version = "0.1.0"
edition = "2021"
publish = false

[dependencies]
anyhow = "*"
guppy = "*"
rustdoc-types = "*"
serde_json = "*"
tokio = { version = "*", features = ["full"] }
