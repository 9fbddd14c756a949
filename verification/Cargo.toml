[package]
name = "glare"
version = "0.1.0"
edition = "2021"
publish = false

[dependencies]
regex = "1"
phf = { version = "0.11", features = ["macros"] }
serde_json = "1"
tinytemplate = "1"
