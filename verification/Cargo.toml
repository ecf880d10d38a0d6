[package]
name = "capy"
version = "0.1.0"
edition = "2021"
publish = false

[dependencies]
la-arena = "=0.3.1"
rustc-hash = "=1.1.0"
text-size = "=1.1.1"
path-clean = "=1.0.1"
drop_bomb = "=0.1.5"
cranelift = "0.123"
cranelift-jit = "0.123"
cranelift-module = "0.123"
cranelift-native = "0.123"
cranelift-object = "0.123"
target-lexicon = "0.13"
