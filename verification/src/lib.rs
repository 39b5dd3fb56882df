//! K-mer profiling for DNA sequences.
//!
//! A sequence over the alphabet {A, C, G, T} is cut into its overlapping
//! windows of a fixed length `k` (its k-mers).  From that ordered list of
//! k-mers the library derives a frequency map and a De Bruijn-style
//! adjacency structure (node key = the first `k - 1` characters of a k-mer,
//! edge label = its final character), and materializes the adjacency
//! structure as an explicit node/edge graph for export.

pub mod counts;
pub mod export;
pub mod graph;
pub mod kmer;
pub mod materialize;
pub mod random;
