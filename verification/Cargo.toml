[package]
name = "themester"
version = "0.1.0"
edition = "2021"
publish = false

[dependencies]
rand = "=0.9.5"
chrono = { version = "=0.4.45", features = ["serde"] }
shellexpand = "=3.1.2"
freezable-trait = "=0.4.1"
toml-configurator = "=0.2.8"
