[package]
name = "netcdf_reader"
version = "0.1.0"
edition = "2021"
publish = false

[dependencies]
chrono = "0.4"
lz4_flex = "0.11"
