//! A digit in a cell.

use vstd::prelude::*;
use vstd::std_specs::convert::FromSpecImpl;
use crate::engine::{candidate_of, candidate_cell, candidate_digit, new_candidate};
use sudoku::board::Candidate as RCandidate;

verus! {

/// A digit in a cell, as two bytes: the cell's index, 0 to 80 row by row,
/// and the digit, 1 to 9.
#[derive(Clone, Copy, Debug, PartialEq, Eq, Structural)]
pub struct Candidate {
    pub cell: u8,
    pub num: u8,
}

/// The older name of a candidate.
pub type Entry = Candidate;

impl Candidate {
    /// Whether the cell is on the grid and the digit is one of 1 to 9.
    pub open spec fn is_valid(&self) -> bool {
        self.cell < 81 && 1 <= self.num <= 9
    }

    /// Whether the cell is on the grid and the digit is one of 1 to 9.
    pub fn validate(self) -> (valid: bool)
        ensures
            valid == self.is_valid(),
    {
        self.cell < 81 && 1 <= self.num && self.num <= 9
    }

    /// Makes the engine's candidate with the same cell and digit.
    pub fn to_engine(self) -> (candidate: RCandidate)
        requires
            self.is_valid(),
        ensures
            candidate_of(candidate) == self,
    {
        new_candidate(self.cell, self.num)
    }
}

impl From<RCandidate> for Candidate {
    /// Reads the cell and the digit of an engine candidate.
    fn from(entry: RCandidate) -> (candidate: Candidate) {
        let num = candidate_digit(&entry);
        let cell = candidate_cell(&entry);
        Candidate { cell, num }
    }
}

impl FromSpecImpl<RCandidate> for Candidate {
    open spec fn obeys_from_spec() -> bool {
        true
    }

    open spec fn from_spec(entry: RCandidate) -> Candidate {
        candidate_of(entry)
    }
}

} // verus!
