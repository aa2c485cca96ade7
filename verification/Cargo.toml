[package]
name = "vector_expr"
version = "0.1.0"
edition = "2021"
publish = false

[dependencies]
bitvec = "=1.1.1"
rayon = "=1.12.0"
num-traits = "=0.2.19"
