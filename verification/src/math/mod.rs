//! Fixed-size transforms and vectors.
pub mod matrix;
