[package]
name = "kmer_graph"
version = "0.1.0"
edition = "2021"
publish = false

[dependencies]
csv = "*"
petgraph = "*"
plotters = "*"
rand = "0.8"
