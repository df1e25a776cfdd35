[package]
name = "layered_config"
version = "0.1.0"
edition = "2021"
publish = false

[dependencies]
url = "*"
toml = "*"
serde = "*"
miette = "*"
rattler_conda_types = "*"
