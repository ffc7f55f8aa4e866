[package]
name = "gecko_recorder"
version = "0.1.0"
edition = "2021"
publish = false

[dependencies]
fxprof-processed-profile = "*"
serde_json = "*"
