//! A flat, fixed-layout boundary around a constraint-propagation sudoku
//! engine: grids, candidates, bitmasks, deductions and the solver handle.

pub mod bitmask;
pub mod board;
pub mod engine;
pub mod strategy;
