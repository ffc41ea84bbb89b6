[package]
name = "to_pdf"
version = "0.1.0"
edition = "2021"
publish = false

[dependencies]
typst = "=0.11.1"
typst-pdf = "=0.11.1"
typst-svg = "=0.11.1"
comemo = "=0.4.0"
ecow = "=0.2.6"
fontdb = "=0.16.2"
parking_lot = "=0.12.5"
time = "=0.3.55"

[dev-dependencies]
typst-assets = { version = "=0.11.1", features = ["fonts"] }
