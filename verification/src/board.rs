//! The grid and the candidates on it.

pub mod candidate;
pub mod grid;
pub mod puzzle;
