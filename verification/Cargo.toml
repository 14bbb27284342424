[package]
name = "omg_idl_code_gen"
version = "0.1.0"
edition = "2021"
publish = false

[dependencies]
clap = { version = "=4.6.7", features = ["cargo"] }
minijinja = "=2.24.0"
omg-idl-grammar = "=0.2.3"
pest = "=2.8.8"
thiserror = "=2.0.21"
