//! The handle on a solve in progress.

use vstd::prelude::*;
use crate::bitmask::{
    all_within, bit, index_set, lemma_index_set_below, lemma_pack_unpack,
    lemma_subset_mask, mask_of, mask_of_digits, members, Mask16,
};
use crate::board::candidate::Candidate;
use crate::board::grid::solved_grid;
use crate::board::puzzle::Sudoku;
use crate::engine::{
    candidates_state, cell_state, cell_state_of, digit_state, grid_of, outcome_grid,
    outcome_steps, rstrategy_of, solve_result, solver_candidates, solver_grid, strategy_of,
    to_bytes,
};
use crate::strategy::deductions::Deductions;
use crate::strategy::strategies::Strategy;
use sudoku::board::CellState as RCellState;
use sudoku::strategy::deduction::Deductions as RDeductions;
use sudoku::strategy::Strategy as RStrategy;
use sudoku::strategy::StrategySolver as RStrategySolver;
use sudoku::Sudoku as RSudoku;

verus! {

/// What is known of one cell: its digit, or the mask of the digits that
/// are left for it.
#[derive(Clone, Copy, Debug, PartialEq, Eq, Structural)]
pub enum CellState {
    Digit(u8),
    Candidates(Mask16),
}

impl CellState {
    /// Whether the digit is one of 1 to 9, or the mask has no bit above the
    /// ninth.
    pub open spec fn is_valid(self) -> bool {
        match self {
            CellState::Digit(digit) => 1 <= digit <= 9,
            CellState::Candidates(mask) => mask <= 0x1ff,
        }
    }

    /// Whether the state leaves `digit` open: a mask does where it has the
    /// digit's bit, and a cell that holds a digit asks nothing.
    pub open spec fn admits(self, digit: u8) -> bool {
        match self {
            CellState::Digit(_) => true,
            CellState::Candidates(mask) => 1 <= digit <= 9 && bit(mask as u64, digit - 1),
        }
    }

    /// The byte of the cell in a grid: its digit, or 0.
    pub open spec fn digit(self) -> u8 {
        match self {
            CellState::Digit(digit) => digit,
            CellState::Candidates(_) => 0,
        }
    }
}

/// What is known of each of the 81 cells, row by row.
#[derive(Clone, Copy, Debug)]
pub struct GridState {
    pub grid: [CellState; 81],
}

impl GridState {
    /// Whether each of the 81 states is valid.
    pub open spec fn is_valid(&self) -> bool {
        forall|i: int| 0 <= i < 81 ==> (#[trigger] self.grid[i]).is_valid()
    }

    /// Whether each of the 81 states is valid.
    pub fn validate(&self) -> (valid: bool)
        ensures
            valid == self.is_valid(),
    {
        let mut i: usize = 0;
        while i < 81
            invariant
                i <= 81,
                forall|k: int| 0 <= k < i ==> (#[trigger] self.grid[k]).is_valid(),
            decreases 81 - i,
        {
            let valid = match self.grid[i] {
                CellState::Digit(digit) => 1 <= digit && digit <= 9,
                CellState::Candidates(mask) => mask <= 0x1ff,
            };
            if !valid {
                return false;
            }
            i += 1;
        }
        true
    }

    /// The grid of the digits, with 0 for each cell given by candidates.
    pub open spec fn digits(&self) -> Seq<u8> {
        Seq::new(81, |i: int| self.grid[i].digit())
    }
}

/// A solve in progress: a grid partly filled and, for each empty cell, the
/// digits that are left. The handle owns the engine's solver; solving
/// consumes it.
#[derive(Debug)]
pub struct StrategySolver {
    solver: RStrategySolver,
}

impl View for StrategySolver {
    type V = Seq<u8>;

    /// The grid reached so far.
    closed spec fn view(&self) -> Seq<u8> {
        solver_grid(self.solver)
    }
}

impl StrategySolver {
    /// The engine's solver that the handle owns.
    pub closed spec fn source(&self) -> RStrategySolver {
        self.solver
    }

    /// The engine's solver that the handle owns, to read from.
    pub fn as_rsolver(&self) -> (solver: &RStrategySolver)
        ensures
            *solver == self.source(),
    {
        &self.solver
    }

    /// The digits that are left for `cell`, lowest first, where the cell is
    /// empty.
    pub closed spec fn candidates(&self, cell: u8) -> Seq<u8> {
        solver_candidates(self.solver, cell)
    }

    /// The digits that are left for `cell` as a mask: bit `d - 1` for digit
    /// `d`.
    pub open spec fn candidate_mask(&self, cell: u8) -> Mask16 {
        mask_of(index_set(self.candidates(cell), 1)) as u16
    }

    /// What the engine returns when it solves from here with the
    /// techniques named: the grid reached and the steps made, as `Ok`
    /// where the grid is solved.
    pub closed spec fn outcome(&self, strategies: Seq<Strategy>) -> Result<
        (RSudoku, RDeductions),
        (RSudoku, RDeductions),
    > {
        solve_result(self.solver, strategies.map_values(|named: Strategy| rstrategy_of(named)))
    }
}

/// Whether the engine has each of the techniques.
pub open spec fn all_available(strategies: Seq<Strategy>) -> bool {
    forall|i: int| 0 <= i < strategies.len() ==> (#[trigger] strategies[i]).is_available()
}

/// What a solve came to.
#[derive(Debug)]
pub struct StrategySolvingResult {
    pub is_solved: bool,
    pub sudoku: Sudoku,
    pub deductions: Deductions,
}

/// Starts a solve from a grid.
pub fn strategy_solver_new(grid: Sudoku) -> (solver: StrategySolver)
    requires
        grid.is_valid(),
    ensures
        solver@ == grid@,
{
    let engine_grid = grid.to_rust_sudoku();
    StrategySolver { solver: RStrategySolver::from_sudoku(engine_grid) }
}

proof fn lemma_narrow(wide: u64, given: u16)
    by (bit_vector)
    requires
        wide <= 0x1ff,
        wide & !(given as u64) == 0,
    ensures
        (wide as u16) & !given == 0,
{
}

proof fn lemma_left_in_mask(left: Seq<u8>, given: u16)
    requires
        forall|k: int|
            0 <= k < left.len() ==> 1 <= #[trigger] left[k] <= 9 && bit(given as u64, left[k] - 1),
    ensures
        (mask_of(index_set(left, 1)) as u16) & !given == 0,
{
    let digits = index_set(left, 1);
    assert(all_within(left, 1, 9));
    lemma_index_set_below(left, 1, 9);
    lemma_pack_unpack(digits, 9);
    assert forall|i: int| #[trigger] members(mask_of(digits)).contains(i) implies members(
        given as u64,
    ).contains(i) by {
        let k = choose|k: int| 0 <= k < left.len() && #[trigger] left[k] == i + 1;
        assert(bit(given as u64, left[k] - 1));
    }
    lemma_subset_mask(mask_of(digits), given as u64);
    lemma_narrow(mask_of(digits), given);
}

/// The 81 states as the engine takes them: each digit as a digit, each
/// mask as the set of its digits.
pub fn engine_states(grid_state: &GridState) -> (states: [RCellState; 81])
    requires
        grid_state.is_valid(),
    ensures
        forall|k: int| 0 <= k < 81 ==> cell_state_of(#[trigger] states[k]) == grid_state.grid[k],
{
    let mut states: [RCellState; 81] = [candidates_state(0);81];
    let mut i: usize = 0;
    while i < 81
        invariant
            i <= 81,
            grid_state.is_valid(),
            forall|k: int| 0 <= k < i ==> cell_state_of(#[trigger] states[k]) == grid_state.grid[k],
        decreases 81 - i,
    {
        let state = match grid_state.grid[i] {
            CellState::Digit(digit) => digit_state(digit),
            CellState::Candidates(mask) => candidates_state(mask),
        };
        states[i] = state;
        i += 1;
    }
    states
}

/// Starts a solve from what is known of each cell: the digits are on the
/// grid, and for a cell given by a mask no digit outside the mask is left.
pub fn strategy_solver_from_grid_state(grid_state: GridState) -> (solver: StrategySolver)
    requires
        grid_state.is_valid(),
    ensures
        solver@ == grid_state.digits(),
        forall|cell: u8, k: int|
            cell < 81 && 0 <= k < solver.candidates(cell).len() ==> grid_state.grid[cell as int].admits(
                #[trigger] solver.candidates(cell)[k],
            ),
        forall|cell: u8|
            cell < 81 ==> (grid_state.grid[cell as int] matches CellState::Candidates(given)
                ==> #[trigger] solver.candidate_mask(cell) & !given == 0),
{
    let solver = RStrategySolver::from_grid_state(engine_states(&grid_state));
    assert(solver_grid(solver) =~= grid_state.digits());
    let handle = StrategySolver { solver };
    proof {
        assert forall|cell: u8| cell < 81 implies (grid_state.grid[cell as int] matches CellState::Candidates(
            given,
        ) ==> #[trigger] handle.candidate_mask(cell) & !given == 0) by {
            if let CellState::Candidates(given) = grid_state.grid[cell as int] {
                let left = handle.candidates(cell);
                assert forall|k: int| 0 <= k < left.len() implies 1 <= #[trigger] left[k] <= 9
                    && bit(given as u64, left[k] - 1) by {
                    assert(grid_state.grid[cell as int].admits(handle.candidates(cell)[k]));
                }
                lemma_left_in_mask(left, given);
            }
        }
    }
    handle
}

/// The grid reached so far.
pub fn strategy_solver_to_sudoku(solver: &mut StrategySolver) -> (grid: Sudoku)
    ensures
        grid@ == old(solver)@,
        grid.is_valid(),
        final(solver)@ == old(solver)@,
        forall|cell: u8| #[trigger] final(solver).candidates(cell) == old(solver).candidates(cell),
        forall|cell: u8|
            #[trigger] final(solver).candidate_mask(cell) == old(solver).candidate_mask(cell),
{
    Sudoku::from_rust_sudoku(solver.solver.to_sudoku())
}

/// Tries to put a digit into a cell. A cell that holds a digit already
/// refuses, and the grid stays as it is.
pub fn strategy_solver_insert_entry(solver: &mut StrategySolver, entry: Candidate) -> (inserted:
    bool)
    requires
        entry.is_valid(),
    ensures
        inserted <==> old(solver)@[entry.cell as int] == 0,
        inserted ==> final(solver)@ == old(solver)@.update(entry.cell as int, entry.num),
        !inserted ==> final(solver)@ == old(solver)@,
{
    let grid = to_bytes(solver.solver.to_sudoku());
    if grid[entry.cell as usize] != 0 {
        return false;
    }
    let result = solver.solver.insert_candidate(entry.to_engine());
    result.is_ok()
}

/// The digits that are left for a cell, as a mask: bit `d - 1` for digit
/// `d`. There is none for a cell that holds a digit, nor for a cell that is
/// not on the grid.
pub fn strategy_solver_cell_candidates(solver: &mut StrategySolver, cell: u8) -> (mask: Option<
    Mask16,
>)
    ensures
        mask is Some <==> cell < 81 && old(solver)@[cell as int] == 0,
        mask matches Some(bits) ==> bits == old(solver).candidate_mask(cell) && members(
            bits as u64,
        ) == index_set(old(solver).candidates(cell), 1) && bits <= 0x1ff,
        final(solver)@ == old(solver)@,
{
    if cell >= 81 {
        return None;
    }
    match cell_state(&mut solver.solver, cell) {
        None => None,
        Some(digits) => Some(mask_of_digits(digits.as_slice())),
    }
}

/// Solves as far as the techniques given lead, and consumes the handle.
/// Solved or not, the result holds the grid reached and the steps made. A
/// list with a technique that the engine does not have is refused, and the
/// handle comes back as it was.
pub fn strategy_solver_solve(solver: StrategySolver, strategies: &[Strategy]) -> (result: Result<
    StrategySolvingResult,
    StrategySolver,
>)
    ensures
        result is Ok <==> all_available(strategies@),
        result matches Err(handle) ==> handle == solver,
        result matches Ok(found) ==> {
            &&& found.is_solved == (solver.outcome(strategies@) is Ok)
            &&& found.sudoku@ == grid_of(outcome_grid(solver.outcome(strategies@)))
            &&& found.sudoku.is_valid()
            &&& found.is_solved ==> solved_grid(found.sudoku@)
            &&& found.deductions.source() == outcome_steps(solver.outcome(strategies@))
        },
{
    let mut engine: Vec<RStrategy> = Vec::new();
    let mut i: usize = 0;
    while i < strategies.len()
        invariant
            i <= strategies@.len(),
            engine@.len() == i,
            forall|k: int| 0 <= k < i ==> (#[trigger] strategies@[k]).is_available(),
            forall|k: int| 0 <= k < i ==> #[trigger] engine@[k] == rstrategy_of(strategies@[k]),
            forall|k: int| 0 <= k < i ==> strategy_of(#[trigger] engine@[k]) == strategies@[k],
        decreases strategies@.len() - i,
    {
        match strategies[i].to_rstrategy() {
            Some(strategy) => {
                engine.push(strategy);
            },
            None => {
                return Err(solver);
            },
        }
        i += 1;
    }
    proof {
        assert(engine@ =~= strategies@.map_values(|named: Strategy| rstrategy_of(named)));
    }
    let result = solver.solver.solve(engine.as_slice());
    let is_solved = result.is_ok();
    let (grid, deductions) = match result {
        Ok(pair) => pair,
        Err(pair) => pair,
    };
    Ok(
        StrategySolvingResult {
            is_solved,
            sudoku: Sudoku::from_rust_sudoku(grid),
            deductions: Deductions::new(deductions),
        },
    )
}

} // verus!
