[package]
name = "pkgshift"
version = "0.1.0"
edition = "2021"
publish = false

[dependencies]
serde = { version = "1", features = ["derive"] }
serde_json = "1"
sha2 = "0.10"
json5 = "0.4"
noyalib = "*"
clap = { version = "4", features = ["derive"] }

[dev-dependencies]
tempfile = "3"
