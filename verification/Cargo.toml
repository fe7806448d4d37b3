[package]
name = "glad"
version = "0.1.0"
edition = "2021"
publish = false

[dependencies]
rustc_apfloat = "*"
anyhow = "*"
thiserror = "*"
clap = { version = "*", features = ["derive"] }
