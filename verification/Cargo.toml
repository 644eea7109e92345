[package]
name = "polyqd"
version = "0.1.0"
edition = "2021"
publish = false

[dependencies]
clap = "=3.2.25"
geoconv = "=0.8.3"

[dev-dependencies]
serde_json = "=1.0.151"
