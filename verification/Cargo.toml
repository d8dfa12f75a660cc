[package]
name = "doublejit_vm"
version = "0.1.0"
edition = "2021"
publish = false

[dependencies]
wasmer = "=4.4.0"
wasmer-compiler-singlepass = "=4.4.0"
