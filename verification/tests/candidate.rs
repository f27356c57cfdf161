use sudoku::board::Candidate as RCandidate;
use sudoku_ffi::board::candidate::{Candidate, Entry};

#[test]
fn candidate_from_engine_reads_cell_and_digit() {
    let candidate = Candidate::from(RCandidate::new(42, 7));
    assert_eq!(candidate, Candidate { cell: 42, num: 7 });
    assert_eq!(Candidate::from(RCandidate::new(0, 1)), Candidate { cell: 0, num: 1 });
    assert_eq!(Candidate::from(RCandidate::new(80, 9)), Candidate { cell: 80, num: 9 });
}

#[test]
fn candidate_to_engine_keeps_cell_and_digit() {
    let engine = Candidate { cell: 17, num: 3 }.to_engine();
    assert_eq!(engine, RCandidate::new(17, 3));
    assert_eq!(engine.cell.get(), 17);
    assert_eq!(engine.digit.get(), 3);
}

#[test]
fn candidate_round_trip() {
    for cell in 0..81u8 {
        for num in 1..=9u8 {
            let candidate = Candidate { cell, num };
            assert!(candidate.validate());
            assert_eq!(Candidate::from(candidate.to_engine()), candidate);
        }
    }
}

#[test]
fn candidate_outside_the_grid_is_not_valid() {
    assert!(!Candidate { cell: 81, num: 1 }.validate());
    assert!(!Candidate { cell: 0, num: 0 }.validate());
    assert!(!Candidate { cell: 0, num: 10 }.validate());
    assert!(Candidate { cell: 80, num: 9 }.validate());
}

#[test]
fn entry_is_a_candidate() {
    let entry: Entry = Candidate { cell: 5, num: 6 };
    assert_eq!(entry.cell, 5);
    assert_eq!(entry.num, 6);
}
