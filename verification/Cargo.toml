[package]
name = "cjs_module_lexer"
version = "0.1.0"
edition = "2021"
publish = false

[dependencies]
unicode-id-start = "*"
