[package]
name = "zkp_prover"
version = "0.1.0"
edition = "2021"
publish = false

[dependencies]
getrandom = { version = "0.2", features = ["js"] }
wasm-bindgen = "=0.2.129"
wee_alloc = "=0.4.5"
