[package]
name = "cargo_autoinherit"
version = "0.1.0"
edition = "2021"
publish = false

[dependencies]
anyhow = "*"
cargo-manifest = "*"
clap = { version = "*", features = ["derive"] }
fs-err = "*"
guppy = "*"
pathdiff = "*"
semver = "*"
toml = "*"
toml_edit = "*"
