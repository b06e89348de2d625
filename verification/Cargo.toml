[package]
name = "albert_train"
version = "0.1.0"
edition = "2021"
publish = false

[dependencies]
candle-core = "0.9"
candle-nn = "0.9"
rand = "0.8"
rayon = "1"
serde_json = "1"
