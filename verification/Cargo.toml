[package]
name = "virtual_machine16_bit"
version = "0.1.0"
edition = "2021"
publish = false

[dependencies]

[dev-dependencies]
nom = { version = "5", default-features = false, features = ["std"] }
