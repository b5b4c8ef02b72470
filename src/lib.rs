//! Weighted edit distance between two character sequences, with the full
//! dynamic-programming grid.
pub mod laws;
pub mod levenshtein;
pub mod model;
pub mod structures;

pub use levenshtein::Levenshtein;
pub use structures::{Costs, Mapping, Position, Results};
