[package]
name = "vanity_search"
version = "0.1.0"
edition = "2021"
publish = false

[dependencies]
curve25519-dalek = "4"
rand_chacha = "0.3"
rand_core = "0.6"
getrandom = "0.2"
wasm-bindgen = "0.2"
js-sys = "0.3"
