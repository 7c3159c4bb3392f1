[package]
name = "png_filter"
version = "0.1.0"
edition = "2021"

[dependencies]
png = "0.17"
