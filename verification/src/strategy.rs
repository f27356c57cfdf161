//! Solving with the techniques that people use, step by step.

pub mod deduction;
pub mod deductions;
pub mod solver;
pub mod strategies;
