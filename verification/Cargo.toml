[package]
name = "aderyn_core"
version = "0.1.0"
edition = "2021"
publish = false

[dependencies]
cyfrin-foundry-compilers = { version = "*", default-features = false }
eyre = "0.6"
prettytable-rs = { version = "0.10", default-features = false }
rayon = "1"
serde = { version = "1", features = ["derive"] }
toml = "0.8"
