[package]
name = "alchemy"
version = "0.1.0"
edition = "2021"
publish = false

[dependencies]
convert_case = "*"
pluralizer = "*"
serde_json = "*"
rust_arango = "*"
actix-web = "*"
actix-cors = "*"
