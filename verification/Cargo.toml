[package]
name = "icon_lookup"
version = "0.1.0"
edition = "2021"
publish = false

[dependencies]
tini = "1"
thiserror = "1"
either = "1"
