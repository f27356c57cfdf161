//! The 81-byte grid.

use vstd::prelude::*;
use crate::board::grid::{empty_grid, filled_cells, solution_of, solved_grid, valid_grid};
use crate::engine::{from_bytes, grid_of, solution_count, solutions_up_to_buffer, to_bytes};
use sudoku::Sudoku as RSudoku;

verus! {

/// A classical 9x9 sudoku: 81 bytes, row by row, 0 for an empty cell and
/// 1 to 9 for a filled one. A value is a grid when no byte is above 9; it
/// need not be solvable.
#[derive(Clone, Copy, Debug, PartialEq, Eq)]
pub struct Sudoku(pub [u8; 81]);

impl View for Sudoku {
    type V = Seq<u8>;

    open spec fn view(&self) -> Seq<u8> {
        self.0@
    }
}

impl Sudoku {
    /// Whether no byte is above 9.
    pub open spec fn is_valid(&self) -> bool {
        valid_grid(self@)
    }

    /// Takes the bytes of an engine grid.
    pub fn from_rust_sudoku(engine_grid: RSudoku) -> (grid: Sudoku)
        ensures
            grid@ == grid_of(engine_grid),
            grid.is_valid(),
    {
        Sudoku(to_bytes(engine_grid))
    }

    /// Makes the engine grid with the same bytes.
    pub fn to_rust_sudoku(self) -> (engine_grid: RSudoku)
        requires
            self.is_valid(),
        ensures
            grid_of(engine_grid) == self@,
    {
        from_bytes(self.0).unwrap()
    }
}

/// The grid that `bytes` is read as: `bytes` itself, or the empty grid
/// where a byte is above 9.
pub open spec fn grid_from_bytes(bytes: Seq<u8>) -> Seq<u8> {
    if valid_grid(bytes) {
        bytes
    } else {
        empty_grid()
    }
}

/// Reading 81 bytes with none above 9 gives a grid with those bytes.
pub proof fn lemma_from_bytes_round_trip(bytes: Seq<u8>)
    requires
        valid_grid(bytes),
    ensures
        grid_from_bytes(bytes) == bytes,
{
}

/// Reading bytes with one above 9 gives the grid of 81 zeros.
pub proof fn lemma_from_bytes_sentinel(bytes: Seq<u8>, i: int)
    requires
        0 <= i < bytes.len(),
        bytes[i] > 9,
    ensures
        grid_from_bytes(bytes) == empty_grid(),
        grid_from_bytes(bytes).len() == 81,
        forall|k: int| 0 <= k < 81 ==> grid_from_bytes(bytes)[k] == 0,
{
}

/// Makes a grid of 81 bytes. Where a byte is above 9 the result is the
/// empty grid.
pub fn sudoku_from_bytes(bytes: [u8; 81]) -> (grid: Sudoku)
    ensures
        grid@ == grid_from_bytes(bytes@),
        grid.is_valid(),
{
    match from_bytes(bytes) {
        Ok(engine_grid) => Sudoku::from_rust_sudoku(engine_grid),
        Err(_) => {
            let grid = Sudoku([0; 81]);
            assert(grid@ =~= empty_grid());
            grid
        },
    }
}

/// The 81 bytes of the grid.
pub fn sudoku_as_ptr(grid: &Sudoku) -> (bytes: &[u8; 81])
    ensures
        bytes@ == grid@,
{
    &grid.0
}

/// Makes a random solved grid.
pub fn sudoku_generate_filled() -> (grid: Sudoku)
    ensures
        grid.is_valid(),
        solved_grid(grid@),
{
    Sudoku::from_rust_sudoku(RSudoku::generate_solved())
}

/// Makes a random grid with exactly one solution.
pub fn sudoku_generate_unique() -> (grid: Sudoku)
    ensures
        grid.is_valid(),
        solution_count(grid@, 2) == 1,
{
    Sudoku::from_rust_sudoku(RSudoku::generate())
}

/// Whether no byte is above 9. Nothing is said of whether the grid can be
/// solved.
pub fn sudoku_is_valid_grid(grid: Sudoku) -> (valid: bool)
    ensures
        valid == grid.is_valid(),
{
    from_bytes(grid.0).is_ok()
}

/// Counts the solutions of the grid, no further than `limit`. Fails on a
/// value that is no grid.
pub fn sudoku_count_at_most(grid: Sudoku, limit: usize) -> (count: Option<usize>)
    ensures
        count is Some <==> grid.is_valid(),
        grid.is_valid() ==> count == Some(solution_count(grid@, limit)),
        grid.is_valid() ==> count->Some_0 <= limit,
        grid.is_valid() && limit == 0 ==> count == Some(0usize),
{
    match from_bytes(grid.0) {
        Ok(engine_grid) => Some(engine_grid.solutions_count_up_to(limit)),
        Err(_) => None,
    }
}

/// Whether the grid is filled with every row, column and block holding
/// each digit once.
pub fn sudoku_is_solved(grid: Sudoku) -> (solved: bool)
    ensures
        solved == solved_grid(grid@),
{
    match from_bytes(grid.0) {
        Ok(engine_grid) => engine_grid.is_solved(),
        Err(_) => {
            assert(!solved_grid(grid@)) by {
                if solved_grid(grid@) {
                    assert forall|i: int| 0 <= i < 81 implies #[trigger] grid@[i] <= 9 by {}
                }
            }
            false
        },
    }
}

/// Turns the grid into another one with the same number of solutions, by
/// random relabelling and permutation. Fails, and leaves the value as it
/// is, where it is no grid.
pub fn shuffle(grid: &mut Sudoku) -> (done: bool)
    ensures
        done == old(grid).is_valid(),
        !done ==> *final(grid) == *old(grid),
        done ==> final(grid).is_valid(),
        done ==> filled_cells(final(grid)@) == filled_cells(old(grid)@),
        done ==> forall|limit: usize|
            #[trigger] solution_count(final(grid)@, limit) == solution_count(old(grid)@, limit),
{
    match from_bytes(grid.0) {
        Ok(engine_grid) => {
            let mut engine_grid = engine_grid;
            engine_grid.shuffle();
            *grid = Sudoku::from_rust_sudoku(engine_grid);
            true
        },
        Err(_) => false,
    }
}

/// How many solutions are written into a buffer of `capacity` slots when
/// `found` were counted.
pub open spec fn written(found: int, capacity: int) -> int {
    if found < capacity {
        found
    } else {
        capacity
    }
}

/// Copies the first `found` grids of `target`, or all of them where it
/// holds fewer, into the same slots of `solutions_buf`, and leaves the
/// other slots as they are.
pub fn store_solutions(solutions_buf: &mut [Sudoku], target: &[[u8; 81]], found: usize)
    requires
        old(solutions_buf)@.len() == target@.len(),
    ensures
        final(solutions_buf)@.len() == old(solutions_buf)@.len(),
        forall|i: int|
            0 <= i < written(found as int, target@.len() as int) ==> (#[trigger] final(solutions_buf)@[i])@ == target@[i]@,
        forall|i: int|
            written(found as int, target@.len() as int) <= i < target@.len() ==> #[trigger] final(solutions_buf)@[i] == old(solutions_buf)@[i],
{
    let capacity: usize = target.len();
    let count: usize = if found < capacity {
        found
    } else {
        capacity
    };
    let mut i: usize = 0;
    while i < count
        invariant
            i <= count <= capacity,
            capacity == target@.len(),
            solutions_buf@.len() == capacity,
            old(solutions_buf)@.len() == capacity,
            forall|k: int| 0 <= k < i ==> (#[trigger] solutions_buf@[k])@ == target@[k]@,
            forall|k: int|
                i <= k < capacity ==> #[trigger] solutions_buf@[k] == old(solutions_buf)@[k],
        decreases count - i,
    {
        solutions_buf[i] = Sudoku(target[i]);
        i += 1;
    }
}

/// Counts the solutions of the grid, no further than `limit`, and writes
/// those found into `solutions_buf`, from its start and as far as it has
/// room. Solutions beyond its length are counted and not kept. Fails, and
/// writes nothing, on a value that is no grid.
pub fn sudoku_solve_at_most(solutions_buf: &mut [Sudoku], grid: Sudoku, limit: usize) -> (found:
    Option<usize>)
    ensures
        found is Some <==> grid.is_valid(),
        final(solutions_buf)@.len() == old(solutions_buf)@.len(),
        !grid.is_valid() ==> final(solutions_buf)@ == old(solutions_buf)@,
        grid.is_valid() ==> found == Some(solution_count(grid@, limit)),
        grid.is_valid() ==> found->Some_0 <= limit,
        grid.is_valid() ==> forall|i: int|
            0 <= i < written(found->Some_0 as int, old(solutions_buf)@.len() as int)
                ==> solution_of(#[trigger] final(solutions_buf)@[i]@, grid@),
        grid.is_valid() ==> forall|i: int|
            written(found->Some_0 as int, old(solutions_buf)@.len() as int) <= i < old(
                solutions_buf,
            )@.len() ==> #[trigger] final(solutions_buf)@[i] == old(solutions_buf)@[i],
        grid.is_valid() ==> forall|i: int, j: int|
            0 <= i < j < written(found->Some_0 as int, old(solutions_buf)@.len() as int)
                ==> #[trigger] final(solutions_buf)@[i]@ != #[trigger] final(solutions_buf)@[j]@,
{
    match from_bytes(grid.0) {
        Err(_) => None,
        Ok(engine_grid) => {
            let capacity: usize = solutions_buf.len();
            let mut target: Vec<[u8; 81]> = vec![[0u8; 81]; capacity];
            let found: usize = solutions_up_to_buffer(engine_grid, target.as_mut_slice(), limit);
            store_solutions(solutions_buf, target.as_slice(), found);
            Some(found)
        },
    }
}

} // verus!
