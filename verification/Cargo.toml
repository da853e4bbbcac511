[package]
name = "seqfmt"
version = "0.1.0"
edition = "2021"
publish = false

[dependencies]
lexical-core = "*"
noodles-gff = "*"
noodles-bgzf = "*"
noodles-core = "*"
