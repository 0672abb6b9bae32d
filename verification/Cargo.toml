[package]
name = "odin_stake"
version = "0.1.0"
edition = "2021"
publish = false

[dependencies]
num-bigint = "0.4"
elrond-wasm = "0.30"
elrond-wasm-node = "0.30"
