//! A sparse set of `u32` keys: a dense array of the stored keys and a sparse
//! array from key to dense position, giving constant-time insertion, lookup
//! and unordered removal.
//!
//! [`model`] is the mathematical state of the two arrays and what each
//! operation does to it, [`sparse_set`] the executable structure, and
//! [`laws`] what is proved of the operations taken together.

pub mod laws;
pub mod model;
pub mod sparse_set;
