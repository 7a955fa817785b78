[package]
name = "mk"
version = "0.1.0"
edition = "2021"
publish = false

[dependencies]
anyhow = "*"
attohttpc = { version = "*", default-features = false, features = ["json"] }
clap = { version = "*", features = ["derive"] }
clap_complete = "*"
colored = "*"
dialoguer = "*"
etcetera = "*"
ignore = "*"
indicatif = "*"
semver = "*"
serde = { version = "*", features = ["derive"] }
serde_json = "*"
toml = "*"
toml_edit = "*"
yaml-rust2 = "*"
