[package]
name = "salad_core"
version = "0.1.0"
edition = "2021"
publish = false

[dependencies]
serde_yaml_ng = "*"
