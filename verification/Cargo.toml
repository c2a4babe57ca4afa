[package]
name = "eq_pallets"
version = "0.1.0"
edition = "2021"
publish = false

[dependencies]
sp-arithmetic = "16.0.0"
