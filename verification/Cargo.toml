[package]
name = "specta_swift"
version = "0.1.0"
edition = "2021"
publish = false

[dependencies]
specta = "2.0.0-rc.22"
