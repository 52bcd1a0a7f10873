[package]
name = "tex_io"
version = "0.1.0"
edition = "2021"
publish = false

[dependencies]
digest = "0.8"
flate2 = "1"
sha2 = "0.8"
twox-hash = { version = "1", default-features = false, features = ["digest"] }
