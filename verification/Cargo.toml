[package]
name = "geoview"
version = "0.1.0"
edition = "2021"
publish = false

[dependencies]
geojson = "=1.0.0"
nannou = { version = "=0.9.0", default-features = false }
