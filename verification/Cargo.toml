[package]
name = "nucleotide_subsequence"
version = "0.1.0"
edition = "2021"
publish = false

[dependencies]
clap = "2.33"
regex = "1"
slice-deque = "0.3"
