[package]
name = "tagger"
version = "0.1.0"
edition = "2021"
publish = false

[dependencies]
semver = "0.9"
git2 = { version = "*", default-features = false }
tempdir = "*"
dirs = "*"
serde = { version = "*", features = ["derive"] }
serde_json = "*"
docopt = "*"
