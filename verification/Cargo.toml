[package]
name = "fish_env"
version = "0.1.0"
edition = "2021"
publish = false

[dependencies]
cxx = "1.0"
git-version = "0.3"
lazy_static = "1.4"
