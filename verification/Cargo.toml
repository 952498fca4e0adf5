[package]
name = "excel_frames"
version = "0.1.0"
edition = "2021"
publish = false

[dependencies]
calamine = "*"
polars = { version = "*", default-features = false }
