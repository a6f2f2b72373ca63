[package]
name = "plonk_core"
version = "0.1.0"
edition = "2021"
publish = false

[dependencies]
dusk-bls12_381 = { version = "=0.13.0", default-features = false }
# The next two are reached only through dusk-bls12_381. They are held at the
# last releases that build with Rust 1.95; later ones ask for a newer compiler.
dusk-bytes = "=0.1.7"
derive-hex = "=0.1.2"
