//! Line, word and byte counts of a text buffer, with the meaning the `wc`
//! utility gives them.

pub mod counter;
pub mod laws;
pub mod model;
pub mod starts;
pub mod whitespace;

pub use counter::{count_all, count_bytes, count_lines, count_words, WcResult};
