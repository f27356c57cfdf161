use sudoku_ffi::board::candidate::Candidate;
use sudoku_ffi::board::puzzle::{
    sudoku_from_bytes, sudoku_is_solved, sudoku_is_valid_grid, sudoku_solve_at_most, Sudoku,
};
use sudoku_ffi::strategy::deduction::{
    conflicts_get, conflicts_len, deduction_results, DeductionData, DeductionResult,
    DeductionTag, HouseType,
};
use sudoku_ffi::strategy::deductions::{deductions_get, deductions_len};
use sudoku::board::CellState as RCellState;
use sudoku_ffi::strategy::solver::{
    engine_states, strategy_solver_cell_candidates, strategy_solver_from_grid_state,
    strategy_solver_insert_entry, strategy_solver_new, strategy_solver_solve,
    strategy_solver_to_sudoku, CellState, GridState,
};
use sudoku_ffi::strategy::strategies::Strategy;

const SOLVED: [u8; 81] = [
    5, 3, 4, 6, 7, 8, 9, 1, 2, //
    6, 7, 2, 1, 9, 5, 3, 4, 8, //
    1, 9, 8, 3, 4, 2, 5, 6, 7, //
    8, 5, 9, 7, 6, 1, 4, 2, 3, //
    4, 2, 6, 8, 5, 3, 7, 9, 1, //
    7, 1, 3, 9, 2, 4, 8, 5, 6, //
    9, 6, 1, 5, 3, 7, 2, 8, 4, //
    2, 8, 7, 4, 1, 9, 6, 3, 5, //
    3, 4, 5, 2, 8, 6, 1, 7, 9,
];

const EASY: &str =
    "..3.2.6..9..3.5..1..18.64....81.29..7.......8..67.82....26.95..8..2.3..9..5.1.3..";
const EASY_SOLVED: &str =
    "483921657967345821251876493548132976729564138136798245372689514814253769695417382";
const MIXED: &str =
    "...2...633....54.1..1..398........9....538....3........263..5..5.37....847...1...";
const STUCK: &str =
    "1...34.8....8..5....4.6..21.18......3..1.2..6......81.52..7.9....6..9....9.64...2";

const ALL: [Strategy; 12] = [
    Strategy::NakedSingles,
    Strategy::HiddenSingles,
    Strategy::LockedCandidates,
    Strategy::NakedPairs,
    Strategy::XWing,
    Strategy::HiddenPairs,
    Strategy::NakedTriples,
    Strategy::Swordfish,
    Strategy::HiddenTriples,
    Strategy::NakedQuads,
    Strategy::Jellyfish,
    Strategy::HiddenQuads,
];

fn grid(line: &str) -> [u8; 81] {
    let mut bytes = [0u8; 81];
    for (cell, ch) in line.bytes().enumerate() {
        bytes[cell] = if ch.is_ascii_digit() { ch - b'0' } else { 0 };
    }
    bytes
}

fn cell_in_subset(cell: u8, house: u8, positions: u16) -> bool {
    let (row, col) = (cell / 9, cell % 9);
    let position = match house {
        0..=8 => col,
        9..=17 => row,
        _ => row % 3 * 3 + col % 3,
    };
    positions & (1 << position) != 0
}

fn one_missing(cell: usize) -> [u8; 81] {
    let mut bytes = SOLVED;
    bytes[cell] = 0;
    bytes
}

#[test]
fn new_solver_holds_the_grid() {
    let mut solver = strategy_solver_new(sudoku_from_bytes(grid(EASY)));
    assert_eq!(strategy_solver_to_sudoku(&mut solver).0, grid(EASY));
    assert_eq!(strategy_solver_to_sudoku(&mut solver).0, grid(EASY));
    let mut empty = strategy_solver_new(sudoku_from_bytes([0; 81]));
    assert_eq!(strategy_solver_to_sudoku(&mut empty).0, [0u8; 81]);
}

#[test]
fn last_cell_is_found_as_a_naked_single() {
    for cell in [0usize, 40, 80] {
        let solver = strategy_solver_new(sudoku_from_bytes(one_missing(cell)));
        let found = strategy_solver_solve(solver, &[Strategy::NakedSingles]).unwrap();
        assert!(found.is_solved);
        assert_eq!(found.sudoku.0, SOLVED);
        assert!(deductions_len(&found.deductions) >= 1);
        let first = deductions_get(&found.deductions, 0).unwrap();
        assert_eq!(first.tag, DeductionTag::NakedSingles);
        let expected = Candidate { cell: cell as u8, num: SOLVED[cell] };
        match first.data {
            DeductionData::NakedSingles(single) => assert_eq!(single.candidate, expected),
            other => panic!("{:?}", other),
        }
        assert_eq!(deduction_results(first), DeductionResult::Forced(expected));
    }
}

#[test]
fn insert_entry_fills_an_empty_cell() {
    let mut solver = strategy_solver_new(sudoku_from_bytes(one_missing(40)));
    assert!(strategy_solver_insert_entry(&mut solver, Candidate { cell: 40, num: 5 }));
    assert_eq!(strategy_solver_to_sudoku(&mut solver).0, SOLVED);
    let mut empty = strategy_solver_new(sudoku_from_bytes([0; 81]));
    assert!(strategy_solver_insert_entry(&mut empty, Candidate { cell: 80, num: 9 }));
    assert!(strategy_solver_insert_entry(&mut empty, Candidate { cell: 0, num: 1 }));
    let mut expected = [0u8; 81];
    expected[80] = 9;
    expected[0] = 1;
    assert_eq!(strategy_solver_to_sudoku(&mut empty).0, expected);
}

#[test]
fn insert_entry_into_a_filled_cell_fails() {
    let mut solver = strategy_solver_new(sudoku_from_bytes(one_missing(40)));
    assert!(!strategy_solver_insert_entry(&mut solver, Candidate { cell: 0, num: 9 }));
    assert_eq!(strategy_solver_to_sudoku(&mut solver).0, one_missing(40));
    assert!(!strategy_solver_insert_entry(&mut solver, Candidate { cell: 0, num: 5 }));
    assert_eq!(strategy_solver_to_sudoku(&mut solver).0, one_missing(40));
    assert!(strategy_solver_insert_entry(&mut solver, Candidate { cell: 40, num: 5 }));
    assert!(!strategy_solver_insert_entry(&mut solver, Candidate { cell: 40, num: 6 }));
    assert_eq!(strategy_solver_to_sudoku(&mut solver).0, SOLVED);
}

#[test]
fn cell_candidates_are_the_digits_left() {
    let mut solver = strategy_solver_new(sudoku_from_bytes(one_missing(40)));
    assert_eq!(strategy_solver_cell_candidates(&mut solver, 40), Some(1 << 4));
    assert_eq!(strategy_solver_to_sudoku(&mut solver).0, one_missing(40));
    let mut empty = strategy_solver_new(sudoku_from_bytes([0; 81]));
    assert_eq!(strategy_solver_cell_candidates(&mut empty, 0), Some(0x1ff));
    assert_eq!(strategy_solver_cell_candidates(&mut empty, 80), Some(0x1ff));
    let mut bytes = [0u8; 81];
    bytes[0] = 1;
    bytes[10] = 2;
    bytes[72] = 9;
    let mut some = strategy_solver_new(sudoku_from_bytes(bytes));
    assert_eq!(strategy_solver_cell_candidates(&mut some, 1), Some(0x1ff & !0b11));
    assert_eq!(strategy_solver_cell_candidates(&mut some, 9), Some(0x1ff & !0b1_0000_0011));
    assert_eq!(strategy_solver_cell_candidates(&mut some, 40), Some(0x1ff));
}

#[test]
fn cell_candidates_of_a_filled_cell_are_none() {
    let mut solver = strategy_solver_new(sudoku_from_bytes(one_missing(40)));
    assert_eq!(strategy_solver_cell_candidates(&mut solver, 0), None);
    assert_eq!(strategy_solver_cell_candidates(&mut solver, 80), None);
    assert_eq!(strategy_solver_cell_candidates(&mut solver, 81), None);
    assert_eq!(strategy_solver_cell_candidates(&mut solver, 255), None);
    assert!(strategy_solver_insert_entry(&mut solver, Candidate { cell: 40, num: 5 }));
    assert_eq!(strategy_solver_cell_candidates(&mut solver, 40), None);
}

#[test]
fn grid_state_is_checked() {
    let mut state = GridState { grid: [CellState::Candidates(0x1ff); 81] };
    assert!(state.validate());
    state.grid[3] = CellState::Digit(9);
    state.grid[4] = CellState::Candidates(0);
    assert!(state.validate());
    state.grid[80] = CellState::Digit(0);
    assert!(!state.validate());
    state.grid[80] = CellState::Digit(10);
    assert!(!state.validate());
    state.grid[80] = CellState::Candidates(0x200);
    assert!(!state.validate());
}

#[test]
fn engine_states_keep_digits_and_masks() {
    let mut state = GridState { grid: [CellState::Candidates(0x1ff); 81] };
    state.grid[0] = CellState::Digit(4);
    state.grid[1] = CellState::Candidates(0b0_0110_0000);
    state.grid[80] = CellState::Candidates(0);
    let states = engine_states(&state);
    assert_eq!(states[0], RCellState::Digit(sudoku::board::Digit::new(4)));
    assert_eq!(
        states[1],
        RCellState::Candidates(sudoku::bitset::Set::from_bits(0b0_0110_0000))
    );
    assert_eq!(states[2], RCellState::Candidates(sudoku::bitset::Set::ALL));
    assert_eq!(states[80], RCellState::Candidates(sudoku::bitset::Set::NONE));
}

#[test]
fn candidates_stay_inside_the_mask_given() {
    let mut state = GridState { grid: [CellState::Candidates(0b1_0101_0101); 81] };
    state.grid[0] = CellState::Digit(1);
    state.grid[40] = CellState::Candidates(0b0_0000_0110);
    let mut solver = strategy_solver_from_grid_state(state);
    for cell in 1..81u8 {
        let given = if cell == 40 { 0b0_0000_0110 } else { 0b1_0101_0101 };
        let left = strategy_solver_cell_candidates(&mut solver, cell).unwrap();
        assert_eq!(left & !given, 0);
    }
    assert_eq!(strategy_solver_cell_candidates(&mut solver, 1), Some(0b1_0101_0100));
    assert_eq!(strategy_solver_cell_candidates(&mut solver, 40), Some(0b0_0000_0110));
}

#[test]
fn solver_from_grid_state_holds_the_digits() {
    let mut state = GridState { grid: [CellState::Candidates(0x1ff); 81] };
    state.grid[0] = CellState::Digit(4);
    state.grid[80] = CellState::Digit(7);
    state.grid[1] = CellState::Candidates(0b0_0110_0000);
    state.grid[40] = CellState::Candidates(0b1_0000_0001);
    assert!(state.validate());
    let mut solver = strategy_solver_from_grid_state(state);
    let mut expected = [0u8; 81];
    expected[0] = 4;
    expected[80] = 7;
    assert_eq!(strategy_solver_to_sudoku(&mut solver).0, expected);
    assert_eq!(strategy_solver_cell_candidates(&mut solver, 0), None);
    assert_eq!(strategy_solver_cell_candidates(&mut solver, 1), Some(0b0_0110_0000));
    assert_eq!(strategy_solver_cell_candidates(&mut solver, 40), Some(0b1_0000_0001));
    assert_eq!(strategy_solver_cell_candidates(&mut solver, 2), Some(0x1ff & !(1 << 3)));
    assert_eq!(strategy_solver_cell_candidates(&mut solver, 79), Some(0x1ff & !(1 << 6)));
}

#[test]
fn solver_from_grid_state_of_a_full_grid() {
    let mut state = GridState { grid: [CellState::Digit(1); 81] };
    for cell in 0..81 {
        state.grid[cell] = CellState::Digit(SOLVED[cell]);
    }
    state.grid[22] = CellState::Candidates(1 << (SOLVED[22] - 1));
    let solver = strategy_solver_from_grid_state(state);
    let found = strategy_solver_solve(solver, &[Strategy::NakedSingles]).unwrap();
    assert!(found.is_solved);
    assert_eq!(found.sudoku.0, SOLVED);
}

#[test]
fn solve_refuses_a_technique_that_the_engine_lacks() {
    let solver = strategy_solver_new(sudoku_from_bytes(grid(EASY)));
    let solver = strategy_solver_solve(solver, &[Strategy::UnknownStrategy]).unwrap_err();
    let list = [Strategy::NakedSingles, Strategy::SinglesChain];
    let solver = strategy_solver_solve(solver, &list).unwrap_err();
    let list = [Strategy::NakedSingles, Strategy::HiddenSingles, Strategy::UnknownStrategy];
    let mut solver = strategy_solver_solve(solver, &list).unwrap_err();
    assert_eq!(strategy_solver_to_sudoku(&mut solver).0, grid(EASY));
    let list = [Strategy::NakedSingles, Strategy::HiddenSingles];
    let found = strategy_solver_solve(solver, &list).unwrap();
    assert!(found.is_solved);
    assert_eq!(found.sudoku.0, grid(EASY_SOLVED));
}

#[test]
fn solve_without_techniques_changes_nothing() {
    let solver = strategy_solver_new(sudoku_from_bytes(grid(EASY)));
    let found = strategy_solver_solve(solver, &[]).unwrap();
    assert!(!found.is_solved);
    assert_eq!(found.sudoku.0, grid(EASY));
    assert_eq!(deductions_len(&found.deductions), 0);
    assert!(deductions_get(&found.deductions, 0).is_none());
}

#[test]
fn solve_with_singles_solves_an_easy_grid() {
    let solver = strategy_solver_new(sudoku_from_bytes(grid(EASY)));
    let list = [Strategy::NakedSingles, Strategy::HiddenSingles];
    let found = strategy_solver_solve(solver, &list).unwrap();
    assert!(found.is_solved);
    assert_eq!(found.sudoku.0, grid(EASY_SOLVED));
    assert!(sudoku_is_solved(found.sudoku));
    let len = deductions_len(&found.deductions);
    assert!(len >= 1);
    let mut filled = grid(EASY);
    for idx in 0..len {
        let step = deductions_get(&found.deductions, idx).unwrap();
        let entry = match step.data {
            DeductionData::NakedSingles(single) => {
                assert_eq!(step.tag, DeductionTag::NakedSingles);
                single.candidate
            }
            DeductionData::HiddenSingles(single) => {
                assert_eq!(step.tag, DeductionTag::HiddenSingles);
                assert!(matches!(
                    single.house_type,
                    HouseType::Row | HouseType::Col | HouseType::Block
                ));
                single.candidate
            }
            other => panic!("{:?}", other),
        };
        assert!(entry.validate());
        assert_eq!(grid(EASY_SOLVED)[entry.cell as usize], entry.num);
        filled[entry.cell as usize] = entry.num;
    }
    assert_eq!(filled, grid(EASY_SOLVED));
    assert!(deductions_get(&found.deductions, len).is_none());
    assert!(deductions_get(&found.deductions, usize::MAX).is_none());
}

#[test]
fn steps_of_a_harder_grid_are_all_read() {
    let puzzle = sudoku_from_bytes(grid(MIXED));
    let mut solutions = [Sudoku([0; 81]); 1];
    assert_eq!(sudoku_solve_at_most(&mut solutions, puzzle, 2), Some(1));
    let solver = strategy_solver_new(puzzle);
    let found = strategy_solver_solve(solver, &ALL).unwrap();
    assert!(found.is_solved);
    assert_eq!(found.sudoku.0, solutions[0].0);
    let len = deductions_len(&found.deductions);
    assert_eq!(len, 61);
    let first = deductions_get(&found.deductions, 0).unwrap();
    assert_eq!(deduction_results(first), DeductionResult::Forced(Candidate { cell: 6, num: 7 }));
    let mut seen = [0usize; 8];
    for idx in 0..len {
        let step = deductions_get(&found.deductions, idx).unwrap();
        match step.data {
            DeductionData::NakedSingles(single) => {
                assert_eq!(step.tag, DeductionTag::NakedSingles);
                assert_eq!(solutions[0].0[single.candidate.cell as usize], single.candidate.num);
                seen[0] += 1;
            }
            DeductionData::HiddenSingles(single) => {
                assert_eq!(step.tag, DeductionTag::HiddenSingles);
                assert_eq!(solutions[0].0[single.candidate.cell as usize], single.candidate.num);
                seen[1] += 1;
            }
            DeductionData::LockedCandidates(locked) => {
                assert_eq!(step.tag, DeductionTag::LockedCandidates);
                assert!(locked.miniline < 54);
                assert!(1 <= locked.digit && locked.digit <= 9);
                let fallen = conflicts_len(locked.conflicts);
                assert!(fallen >= 1);
                for at in 0..fallen {
                    let candidate = conflicts_get(locked.conflicts, at).unwrap();
                    assert_eq!(candidate.num, locked.digit);
                    assert_ne!(solutions[0].0[candidate.cell as usize], candidate.num);
                }
                seen[2] += 1;
            }
            DeductionData::NakedSubsets(subsets) | DeductionData::HiddenSubsets(subsets) => {
                assert!(matches!(
                    step.tag,
                    DeductionTag::NakedSubsets | DeductionTag::HiddenSubsets
                ));
                assert_eq!(
                    step.tag == DeductionTag::HiddenSubsets,
                    matches!(step.data, DeductionData::HiddenSubsets(_))
                );
                let first = conflicts_get(subsets.conflicts, 0).unwrap();
                let inside = cell_in_subset(first.cell, subsets.house, subsets.positions);
                assert_eq!(step.tag == DeductionTag::HiddenSubsets, inside);
                assert!(subsets.house < 27);
                assert!(subsets.positions <= 0x1ff && subsets.digits <= 0x1ff);
                assert_eq!(subsets.positions.count_ones(), subsets.digits.count_ones());
                assert!(subsets.positions.count_ones() >= 2);
                let fallen = conflicts_len(subsets.conflicts);
                assert!(fallen >= 1);
                for at in 0..fallen {
                    let candidate = conflicts_get(subsets.conflicts, at).unwrap();
                    assert_ne!(solutions[0].0[candidate.cell as usize], candidate.num);
                }
                seen[3] += 1;
            }
            other => panic!("{:?}", other),
        }
    }
    assert_eq!(seen, [4, 50, 5, 2, 0, 0, 0, 0]);
}

#[test]
fn a_grid_that_the_techniques_do_not_solve() {
    let solver = strategy_solver_new(sudoku_from_bytes(grid(STUCK)));
    let found = strategy_solver_solve(solver, &ALL).unwrap();
    assert!(!found.is_solved);
    assert!(sudoku_is_valid_grid(found.sudoku));
    assert!(!sudoku_is_solved(found.sudoku));
    for cell in 0..81 {
        if grid(STUCK)[cell] != 0 {
            assert_eq!(found.sudoku.0[cell], grid(STUCK)[cell]);
        }
    }
    assert_eq!(deductions_len(&found.deductions), 27);
    for idx in 0..27 {
        assert!(deductions_get(&found.deductions, idx).is_some());
    }
    assert!(deductions_get(&found.deductions, 27).is_none());
}

#[test]
fn a_full_grid_with_a_clash_is_not_solved() {
    let mut clash = SOLVED;
    clash[0] = 3;
    let solver = strategy_solver_new(sudoku_from_bytes(clash));
    let found = strategy_solver_solve(solver, &ALL).unwrap();
    assert!(!found.is_solved);
    assert!(!sudoku_is_solved(found.sudoku));
    let solver = strategy_solver_new(sudoku_from_bytes(SOLVED));
    let found = strategy_solver_solve(solver, &ALL).unwrap();
    assert!(found.is_solved);
    assert_eq!(found.sudoku.0, SOLVED);
}

#[test]
fn conflicts_borrow_from_the_steps() {
    let solver = strategy_solver_new(sudoku_from_bytes(grid(MIXED)));
    let found = strategy_solver_solve(solver, &ALL).unwrap();
    let mut locked = 0;
    for idx in 0..deductions_len(&found.deductions) {
        let step = deductions_get(&found.deductions, idx).unwrap();
        if let DeductionResult::Eliminated(conflicts) = deduction_results(step) {
            let slice = conflicts.as_slice();
            assert_eq!(slice.len(), conflicts_len(conflicts));
            for (at, engine) in slice.iter().enumerate() {
                assert_eq!(conflicts_get(conflicts, at), Some(Candidate::from(*engine)));
            }
            assert_eq!(conflicts_get(conflicts, slice.len()), None);
            locked += 1;
        }
    }
    assert_eq!(locked, 7);
}

#[test]
fn solving_twice_from_the_same_grid_gives_the_same_steps() {
    let first = strategy_solver_solve(strategy_solver_new(sudoku_from_bytes(grid(MIXED))), &ALL)
        .unwrap();
    let second = strategy_solver_solve(strategy_solver_new(sudoku_from_bytes(grid(MIXED))), &ALL)
        .unwrap();
    assert_eq!(first.is_solved, second.is_solved);
    assert_eq!(first.sudoku.0, second.sudoku.0);
    assert_eq!(deductions_len(&first.deductions), deductions_len(&second.deductions));
    for idx in 0..deductions_len(&first.deductions) {
        assert_eq!(
            deductions_get(&first.deductions, idx),
            deductions_get(&second.deductions, idx)
        );
    }
}
