[package]
name = "osmosis_test_tube"
version = "0.1.0"
edition = "2021"
publish = false

[dependencies]
cosmwasm-std = "=3.0.10"
prost = "=0.14.4"
