[package]
name = "oracles"
version = "0.1.0"
edition = "2021"
publish = false

[dependencies]
anchor-lang = "0.28"
serde_json = "1"
switchboard-v2 = "*"
