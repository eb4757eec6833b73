[package]
name = "dioptase"
version = "0.1.0"
edition = "2021"
publish = false

[dependencies]
simd_cesu8 = "*"
jdescriptor = "*"
zip = "*"
clap = { version = "*", features = ["derive"] }
thiserror = "*"
anyhow = "*"
