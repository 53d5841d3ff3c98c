[package]
name = "dep_fetch"
version = "0.1.0"
edition = "2021"
publish = false

[dependencies]
semver = "=1.0.28"
ureq = "=3.4.2"
env_proxy = "=0.4.1"
crates-index = { version = "=3.14.2", features = ["git"] }
dunce = "=1.0.5"
url = "=2.5.8"
