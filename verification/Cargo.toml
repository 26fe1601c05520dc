[package]
name = "nix_jit"
version = "0.1.0"
edition = "2021"
publish = false

[dependencies]
cranelift-codegen = "=0.134.4"
cranelift-frontend = "=0.134.4"
cranelift-jit = "=0.134.4"
cranelift-module = "=0.134.4"
rnix = "=0.12.0"
