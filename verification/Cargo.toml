[package]
name = "jsx_string"
version = "0.1.0"
edition = "2021"
publish = false

[dependencies]
swc_common = "*"
swc_ecma_ast = "*"
swc_ecma_utils = "*"
swc_ecma_visit = "*"
