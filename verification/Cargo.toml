[package]
name = "facet_generate"
version = "0.1.0"
edition = "2021"
publish = false

[dependencies]
heck = "=0.5.0"
textwrap = "=0.16.4"
include_dir = "=0.7.4"
indoc = "=2.0.8"
serde = { version = "=1.0.229", features = ["derive"] }
anyhow = "=1.0.104"
indent = "0.1"

[dev-dependencies]
tempfile = "=3.27.0"
