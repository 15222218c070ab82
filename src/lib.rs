//! Positional statistics over circular nucleotide sequences: sliding windows
//! that wrap around the end of a plasmid, counting the positions at which a
//! per-position predicate (G/C membership, or the start of a short
//! self-complementary stretch) holds.

pub mod engine;
pub mod metric;
pub mod density;
pub mod batch;
pub mod fasta;
