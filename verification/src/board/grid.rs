//! What the 81 bytes of a grid mean.

use vstd::prelude::*;

verus! {

/// Whether `bytes` is a grid: 81 cells, each empty (0) or a digit 1 to 9.
pub open spec fn valid_grid(bytes: Seq<u8>) -> bool {
    bytes.len() == 81 && (forall|i: int| 0 <= i < 81 ==> #[trigger] bytes[i] <= 9)
}

/// The grid with no cell filled.
pub open spec fn empty_grid() -> Seq<u8> {
    Seq::new(81, |i: int| 0u8)
}

/// The number of cells that hold a digit.
pub open spec fn filled_cells(grid: Seq<u8>) -> nat {
    grid.filter(|byte: u8| byte != 0).len()
}

/// Whether `cell` lies in `house`: houses 0 to 8 are the rows, 9 to 17 the
/// columns, 18 to 26 the blocks.
pub open spec fn in_house(cell: int, house: int) -> bool {
    if house < 9 {
        cell / 9 == house
    } else if house < 18 {
        cell % 9 == house - 9
    } else {
        cell / 27 * 3 + cell % 9 / 3 == house - 18
    }
}

/// Whether some cell of `house` holds `digit`.
pub open spec fn house_holds(grid: Seq<u8>, house: int, digit: int) -> bool {
    exists|cell: int| 0 <= cell < 81 && #[trigger] in_house(cell, house) && grid[cell] == digit
}

/// Whether every cell holds a digit and every row, column and block holds
/// each digit.
pub open spec fn solved_grid(grid: Seq<u8>) -> bool {
    &&& grid.len() == 81
    &&& (forall|i: int| 0 <= i < 81 ==> 1 <= #[trigger] grid[i] <= 9)
    &&& (forall|house: int, digit: int|
        0 <= house < 27 && 1 <= digit <= 9 ==> #[trigger] house_holds(grid, house, digit))
}

/// Whether `solution` is solved and keeps every clue of `grid`.
pub open spec fn solution_of(solution: Seq<u8>, grid: Seq<u8>) -> bool {
    &&& solved_grid(solution)
    &&& grid.len() == 81
    &&& (forall|i: int| 0 <= i < 81 && grid[i] != 0 ==> solution[i] == #[trigger] grid[i])
}

} // verus!
