//! The solving engine: its types as opaque values, names for what they hold
//! and for what its functions return, and the contracts that the rest of
//! the library takes on trust.

use vstd::prelude::*;
use crate::bitmask::all_within;
use crate::board::candidate::Candidate;
use crate::board::grid::{filled_cells, solution_of, solved_grid, valid_grid};
use crate::strategy::deduction::{is_subset_technique, DeductionKind, HouseType};
use crate::strategy::solver::CellState;
use crate::strategy::strategies::Strategy;
use sudoku::board::positions::HouseType as RHouseType;
use sudoku::board::Candidate as RCandidate;
use sudoku::board::CellState as RCellState;
use sudoku::errors::FromBytesError;
use sudoku::strategy::deduction::Deductions as RDeductions;
use sudoku::strategy::Deduction as RDeduction;
use sudoku::strategy::Strategy as RStrategy;
use sudoku::strategy::StrategySolver as RStrategySolver;
use sudoku::Sudoku as RSudoku;

verus! {

/// `sudoku::Sudoku`, the engine's grid: an opaque value here.
#[verifier::external_type_specification]
#[verifier::external_body]
pub struct ExSudoku(RSudoku);

/// `sudoku::errors::FromBytesError`: the refusal of bytes above 9.
#[verifier::external_type_specification]
#[verifier::external_body]
pub struct ExFromBytesError(FromBytesError);

/// The 81 bytes that an engine grid holds: what `Sudoku::to_bytes` returns.
pub uninterp spec fn grid_of(grid: RSudoku) -> Seq<u8>;

/// What `Sudoku::solutions_count_up_to` returns: the number of solutions of
/// a grid, counted no further than `limit`.
pub uninterp spec fn solution_count(grid: Seq<u8>, limit: usize) -> usize;

/// `Sudoku::from_bytes` accepts an array exactly when no byte is above 9,
/// and the grid it makes holds the bytes given.
#[verifier::external_body]
pub(crate) fn from_bytes(bytes: [u8; 81]) -> (r: Result<RSudoku, FromBytesError>)
    ensures
        r is Ok <==> valid_grid(bytes@),
        r is Ok ==> grid_of(r->Ok_0) == bytes@,
{
    RSudoku::from_bytes(bytes)
}

/// `Sudoku::to_bytes` hands out the grid's bytes, 0 for an empty cell and 1
/// to 9 for a filled one.
#[verifier::external_body]
pub(crate) fn to_bytes(grid: RSudoku) -> (bytes: [u8; 81])
    ensures
        bytes@ == grid_of(grid),
        valid_grid(bytes@),
{
    grid.to_bytes()
}

/// `Sudoku::is_solved` says whether every cell is filled and every row,
/// column and block holds all nine digits.
pub assume_specification[ RSudoku::is_solved ](grid: &RSudoku) -> (solved: bool)
    ensures
        solved == solved_grid(grid_of(*grid)),
;

/// `Sudoku::solutions_count_up_to` counts the solutions of the grid and
/// stops at `limit`.
pub assume_specification[ RSudoku::solutions_count_up_to ](
    grid: RSudoku,
    limit: usize,
) -> (count: usize)
    ensures
        count == solution_count(grid_of(grid), limit),
        count <= limit,
;

/// `Sudoku::solutions_up_to_buffer` counts as `solutions_count_up_to` does
/// and writes the solutions it finds into `target`, from its start and as
/// far as it has room; the slots after them stay as they were. The search
/// branches on the digit of a cell, so no solution is found twice.
#[verifier::external_body]
pub(crate) fn solutions_up_to_buffer(grid: RSudoku, target: &mut [[u8; 81]], limit: usize) -> (found:
    usize)
    ensures
        found == solution_count(grid_of(grid), limit),
        found <= limit,
        final(target)@.len() == old(target)@.len(),
        forall|i: int|
            0 <= i < found && i < old(target)@.len() ==> solution_of(
                #[trigger] final(target)@[i]@,
                grid_of(grid),
            ),
        forall|i: int|
            found <= i < old(target)@.len() ==> #[trigger] final(target)@[i] == old(target)@[i],
        forall|i: int, j: int|
            0 <= i < j < found && j < old(target)@.len() ==> #[trigger] final(target)@[i]@
                != #[trigger] final(target)@[j]@,
{
    grid.solutions_up_to_buffer(target, limit)
}

/// `Sudoku::shuffle` relabels digits and permutes rows, columns, bands and
/// stacks at random: as many cells are filled after it as before, and the
/// engine documents that it keeps the number of solutions.
pub assume_specification[ RSudoku::shuffle ](grid: &mut RSudoku)
    ensures
        filled_cells(grid_of(*final(grid))) == filled_cells(grid_of(*old(grid))),
        forall|limit: usize|
            #[trigger] solution_count(grid_of(*final(grid)), limit) == solution_count(
                grid_of(*old(grid)),
                limit,
            ),
;

/// `Sudoku::generate_solved` makes a random solved grid.
pub assume_specification[ RSudoku::generate_solved ]() -> (grid: RSudoku)
    ensures
        solved_grid(grid_of(grid)),
;

/// `Sudoku::generate` makes a random grid with exactly one solution.
pub assume_specification[ RSudoku::generate ]() -> (grid: RSudoku)
    ensures
        solution_count(grid_of(grid), 2) == 1,
;

/// `sudoku::board::Candidate`, a cell and a digit of the engine.
#[verifier::external_type_specification]
#[verifier::external_body]
pub struct ExCandidate(RCandidate);

/// The cell and the digit that an engine candidate holds.
pub uninterp spec fn candidate_of(candidate: RCandidate) -> Candidate;

/// `Cell::get` on the candidate's cell: the index that the cell holds.
#[verifier::external_body]
pub(crate) fn candidate_cell(candidate: &RCandidate) -> (cell: u8)
    ensures
        cell == candidate_of(*candidate).cell,
{
    candidate.cell.get()
}

/// `Digit::get` on the candidate's digit. A `Digit` holds one of 1 to 9.
#[verifier::external_body]
pub(crate) fn candidate_digit(candidate: &RCandidate) -> (digit: u8)
    ensures
        digit == candidate_of(*candidate).num,
        1 <= digit <= 9,
{
    candidate.digit.get()
}

/// `Candidate::new` makes the candidate of a cell below 81 and a digit from
/// 1 to 9, and panics on any other.
#[verifier::external_body]
pub(crate) fn new_candidate(cell: u8, digit: u8) -> (candidate: RCandidate)
    requires
        cell < 81,
        1 <= digit <= 9,
    ensures
        candidate_of(candidate) == (Candidate { cell: cell, num: digit }),
{
    RCandidate::new(cell, digit)
}

/// `sudoku::strategy::Strategy`, a technique of the engine.
#[verifier::external_type_specification]
#[verifier::external_body]
pub struct ExStrategy(RStrategy);

/// The name that a technique of the engine has in this library, and
/// `UnknownStrategy` for one that has none.
pub uninterp spec fn strategy_of(strategy: RStrategy) -> Strategy;

/// The engine's technique for a name that it has one for.
pub uninterp spec fn rstrategy_of(strategy: Strategy) -> RStrategy;

/// `Strategy::NakedSingles` of the engine, the one technique with that
/// name; so for each of the eleven that follow.
#[verifier::external_body]
pub(crate) fn engine_naked_singles() -> (r: RStrategy)
    ensures
        r == rstrategy_of(Strategy::NakedSingles),
        strategy_of(r) == Strategy::NakedSingles,
        forall|other: RStrategy| #[trigger] strategy_of(other) == Strategy::NakedSingles ==> other == r,
{
    RStrategy::NakedSingles
}

/// `Strategy::HiddenSingles` of the engine.
#[verifier::external_body]
pub(crate) fn engine_hidden_singles() -> (r: RStrategy)
    ensures
        r == rstrategy_of(Strategy::HiddenSingles),
        strategy_of(r) == Strategy::HiddenSingles,
        forall|other: RStrategy| #[trigger] strategy_of(other) == Strategy::HiddenSingles ==> other == r,
{
    RStrategy::HiddenSingles
}

/// `Strategy::LockedCandidates` of the engine.
#[verifier::external_body]
pub(crate) fn engine_locked_candidates() -> (r: RStrategy)
    ensures
        r == rstrategy_of(Strategy::LockedCandidates),
        strategy_of(r) == Strategy::LockedCandidates,
        forall|other: RStrategy| #[trigger] strategy_of(other) == Strategy::LockedCandidates ==> other == r,
{
    RStrategy::LockedCandidates
}

/// `Strategy::NakedPairs` of the engine.
#[verifier::external_body]
pub(crate) fn engine_naked_pairs() -> (r: RStrategy)
    ensures
        r == rstrategy_of(Strategy::NakedPairs),
        strategy_of(r) == Strategy::NakedPairs,
        forall|other: RStrategy| #[trigger] strategy_of(other) == Strategy::NakedPairs ==> other == r,
{
    RStrategy::NakedPairs
}

/// `Strategy::NakedTriples` of the engine.
#[verifier::external_body]
pub(crate) fn engine_naked_triples() -> (r: RStrategy)
    ensures
        r == rstrategy_of(Strategy::NakedTriples),
        strategy_of(r) == Strategy::NakedTriples,
        forall|other: RStrategy| #[trigger] strategy_of(other) == Strategy::NakedTriples ==> other == r,
{
    RStrategy::NakedTriples
}

/// `Strategy::NakedQuads` of the engine.
#[verifier::external_body]
pub(crate) fn engine_naked_quads() -> (r: RStrategy)
    ensures
        r == rstrategy_of(Strategy::NakedQuads),
        strategy_of(r) == Strategy::NakedQuads,
        forall|other: RStrategy| #[trigger] strategy_of(other) == Strategy::NakedQuads ==> other == r,
{
    RStrategy::NakedQuads
}

/// `Strategy::HiddenPairs` of the engine.
#[verifier::external_body]
pub(crate) fn engine_hidden_pairs() -> (r: RStrategy)
    ensures
        r == rstrategy_of(Strategy::HiddenPairs),
        strategy_of(r) == Strategy::HiddenPairs,
        forall|other: RStrategy| #[trigger] strategy_of(other) == Strategy::HiddenPairs ==> other == r,
{
    RStrategy::HiddenPairs
}

/// `Strategy::HiddenTriples` of the engine.
#[verifier::external_body]
pub(crate) fn engine_hidden_triples() -> (r: RStrategy)
    ensures
        r == rstrategy_of(Strategy::HiddenTriples),
        strategy_of(r) == Strategy::HiddenTriples,
        forall|other: RStrategy| #[trigger] strategy_of(other) == Strategy::HiddenTriples ==> other == r,
{
    RStrategy::HiddenTriples
}

/// `Strategy::HiddenQuads` of the engine.
#[verifier::external_body]
pub(crate) fn engine_hidden_quads() -> (r: RStrategy)
    ensures
        r == rstrategy_of(Strategy::HiddenQuads),
        strategy_of(r) == Strategy::HiddenQuads,
        forall|other: RStrategy| #[trigger] strategy_of(other) == Strategy::HiddenQuads ==> other == r,
{
    RStrategy::HiddenQuads
}

/// `Strategy::XWing` of the engine.
#[verifier::external_body]
pub(crate) fn engine_xwing() -> (r: RStrategy)
    ensures
        r == rstrategy_of(Strategy::XWing),
        strategy_of(r) == Strategy::XWing,
        forall|other: RStrategy| #[trigger] strategy_of(other) == Strategy::XWing ==> other == r,
{
    RStrategy::XWing
}

/// `Strategy::Swordfish` of the engine.
#[verifier::external_body]
pub(crate) fn engine_swordfish() -> (r: RStrategy)
    ensures
        r == rstrategy_of(Strategy::Swordfish),
        strategy_of(r) == Strategy::Swordfish,
        forall|other: RStrategy| #[trigger] strategy_of(other) == Strategy::Swordfish ==> other == r,
{
    RStrategy::Swordfish
}

/// `Strategy::Jellyfish` of the engine.
#[verifier::external_body]
pub(crate) fn engine_jellyfish() -> (r: RStrategy)
    ensures
        r == rstrategy_of(Strategy::Jellyfish),
        strategy_of(r) == Strategy::Jellyfish,
        forall|other: RStrategy| #[trigger] strategy_of(other) == Strategy::Jellyfish ==> other == r,
{
    RStrategy::Jellyfish
}

/// The name of each technique of the engine.
#[verifier::external_body]
pub(crate) fn strategy_from_engine(strategy: &RStrategy) -> (r: Strategy)
    ensures
        r == strategy_of(*strategy),
        r.is_available() ==> rstrategy_of(r) == *strategy,
{
    match strategy {
        RStrategy::NakedSingles => Strategy::NakedSingles,
        RStrategy::HiddenSingles => Strategy::HiddenSingles,
        RStrategy::LockedCandidates => Strategy::LockedCandidates,
        RStrategy::NakedPairs => Strategy::NakedPairs,
        RStrategy::NakedTriples => Strategy::NakedTriples,
        RStrategy::NakedQuads => Strategy::NakedQuads,
        RStrategy::HiddenPairs => Strategy::HiddenPairs,
        RStrategy::HiddenTriples => Strategy::HiddenTriples,
        RStrategy::HiddenQuads => Strategy::HiddenQuads,
        RStrategy::XWing => Strategy::XWing,
        RStrategy::Swordfish => Strategy::Swordfish,
        RStrategy::Jellyfish => Strategy::Jellyfish,
        _ => Strategy::UnknownStrategy,
    }
}

/// `sudoku::board::positions::HouseType`: a row, a column or a block.
#[verifier::external_type_specification]
#[verifier::external_body]
pub struct ExHouseType(RHouseType);

/// `sudoku::strategy::Deduction`, one step that the engine recorded, with
/// its conflicts as a `T`.
#[verifier::external_type_specification]
#[verifier::external_body]
#[verifier::reject_recursive_types(T)]
pub struct ExDeduction<T>(RDeduction<T>);

/// Whether an engine house is a row, a column or a block.
pub uninterp spec fn house_type_of(house_type: RHouseType) -> HouseType;

/// The variant of a step that the engine recorded, and `None` for a
/// variant that this library does not know.
pub uninterp spec fn kind_of(deduction: RDeduction<&[RCandidate]>) -> Option<DeductionKind>;

/// What `Deduction::strategy` returns for a subset: the technique that
/// found it.
pub uninterp spec fn subset_strategy_of(deduction: RDeduction<&[RCandidate]>) -> RStrategy;

/// The candidate of a naked single.
pub uninterp spec fn naked_single_of(deduction: RDeduction<&[RCandidate]>) -> RCandidate;

/// The candidate of a hidden single and the house it is alone in.
pub uninterp spec fn hidden_single_of(deduction: RDeduction<&[RCandidate]>) -> (
    RCandidate,
    RHouseType,
);

/// Of locked candidates: the miniline, the digit, whether the miniline
/// points out of its block, and the candidates that fall.
pub uninterp spec fn locked_candidates_of(deduction: RDeduction<&[RCandidate]>) -> (
    u8,
    u8,
    bool,
    Seq<RCandidate>,
);

/// Of a subset: the house, the positions in it, the digits, and the
/// candidates that fall. Positions and digits come lowest first.
pub uninterp spec fn subsets_of(deduction: RDeduction<&[RCandidate]>) -> (
    u8,
    Seq<u8>,
    Seq<u8>,
    Seq<RCandidate>,
);

/// Of a basic fish: the lines, the positions along them, the digit, and the
/// candidates that fall.
pub uninterp spec fn basic_fish_of(deduction: RDeduction<&[RCandidate]>) -> (
    Seq<u8>,
    Seq<u8>,
    u8,
    Seq<RCandidate>,
);

/// Of a fish: the digit, the raw sets of base and cover houses, and the
/// candidates that fall.
pub uninterp spec fn fish_of(deduction: RDeduction<&[RCandidate]>) -> (
    u8,
    u32,
    u32,
    Seq<RCandidate>,
);

/// Of a wing: the hinge cell, the raw set of its digits, the pincer cells,
/// and the candidates that fall.
pub uninterp spec fn wing_of(deduction: RDeduction<&[RCandidate]>) -> (
    u8,
    u16,
    Seq<u8>,
    Seq<RCandidate>,
);

/// Of an avoidable rectangle: the raw set of its lines and the candidates
/// that fall.
pub uninterp spec fn avoidable_rectangle_of(deduction: RDeduction<&[RCandidate]>) -> (
    u32,
    Seq<RCandidate>,
);

/// Tells the variants of the engine's `HouseType` apart.
#[verifier::external_body]
pub(crate) fn house_type_from_engine(house_type: RHouseType) -> (r: HouseType)
    ensures
        r == house_type_of(house_type),
{
    match house_type {
        RHouseType::Row(_) => HouseType::Row,
        RHouseType::Col(_) => HouseType::Col,
        RHouseType::Block(_) => HouseType::Block,
    }
}

/// Tells the variants of the engine's `Deduction` apart.
#[verifier::external_body]
pub(crate) fn deduction_kind(deduction: &RDeduction<&[RCandidate]>) -> (kind: Option<
    DeductionKind,
>)
    ensures
        kind == kind_of(*deduction),
{
    match deduction {
        RDeduction::NakedSingles(..) => Some(DeductionKind::NakedSingles),
        RDeduction::HiddenSingles(..) => Some(DeductionKind::HiddenSingles),
        RDeduction::LockedCandidates { .. } => Some(DeductionKind::LockedCandidates),
        RDeduction::Subsets { .. } => Some(DeductionKind::Subsets),
        RDeduction::BasicFish { .. } => Some(DeductionKind::BasicFish),
        RDeduction::Fish { .. } => Some(DeductionKind::Fish),
        RDeduction::Wing { .. } => Some(DeductionKind::Wing),
        RDeduction::AvoidableRectangle { .. } => Some(DeductionKind::AvoidableRectangle),
        _ => None,
    }
}

/// The field of `Deduction::NakedSingles`.
#[verifier::external_body]
pub(crate) fn naked_single(deduction: &RDeduction<&[RCandidate]>) -> (r: Option<RCandidate>)
    ensures
        r is Some <==> kind_of(*deduction) == Some(DeductionKind::NakedSingles),
        r is Some ==> r->Some_0 == naked_single_of(*deduction),
{
    match deduction {
        RDeduction::NakedSingles(candidate) => Some(*candidate),
        _ => None,
    }
}

/// The fields of `Deduction::HiddenSingles`.
#[verifier::external_body]
pub(crate) fn hidden_single(deduction: &RDeduction<&[RCandidate]>) -> (r: Option<
    (RCandidate, RHouseType),
>)
    ensures
        r is Some <==> kind_of(*deduction) == Some(DeductionKind::HiddenSingles),
        r is Some ==> r->Some_0 == hidden_single_of(*deduction),
{
    match deduction {
        RDeduction::HiddenSingles(candidate, house_type) => Some((*candidate, *house_type)),
        _ => None,
    }
}

/// The fields of `Deduction::LockedCandidates`, the miniline by
/// `MiniLine::get` and the digit by `Digit::get`.
#[verifier::external_body]
pub(crate) fn locked_candidates<'a>(deduction: &RDeduction<&'a [RCandidate]>) -> (r: Option<
    (u8, u8, bool, &'a [RCandidate]),
>)
    ensures
        r is Some <==> kind_of(*deduction) == Some(DeductionKind::LockedCandidates),
        r matches Some(parts) ==> (parts.0, parts.1, parts.2, parts.3@) == locked_candidates_of(
            *deduction,
        ) && 1 <= parts.1 <= 9,
{
    match deduction {
        RDeduction::LockedCandidates { miniline, digit, is_pointing, conflicts } => Some(
            (miniline.get(), digit.get(), *is_pointing, *conflicts),
        ),
        _ => None,
    }
}

/// The fields of `Deduction::Subsets`: the house by `House::get`, each
/// position of the set by `Position::get`, each digit of the set by
/// `Digit::get`. A set of the engine holds nothing outside its universe:
/// `Set::from_bits` refuses a bit above `Set::ALL`, and the iterator
/// asserts that there is none.
#[verifier::external_body]
pub(crate) fn subsets<'a>(deduction: &RDeduction<&'a [RCandidate]>) -> (r: Option<
    (u8, Vec<u8>, Vec<u8>, &'a [RCandidate]),
>)
    ensures
        r is Some <==> kind_of(*deduction) == Some(DeductionKind::Subsets),
        r matches Some(parts) ==> (parts.0, parts.1@, parts.2@, parts.3@) == subsets_of(
            *deduction,
        ) && all_within(parts.1@, 0, 8) && all_within(parts.2@, 1, 9),
{
    match deduction {
        RDeduction::Subsets { house, positions, digits, conflicts } => Some((
            house.get(),
            positions.into_iter().map(|position| position.get()).collect(),
            digits.into_iter().map(|digit| digit.get()).collect(),
            *conflicts,
        )),
        _ => None,
    }
}

/// The fields of `Deduction::BasicFish`: each line of the set by
/// `Line::get`, each position by `Position::get`, the digit by
/// `Digit::get`. The sets hold nothing outside their universes of 18 lines
/// and 9 positions.
#[verifier::external_body]
pub(crate) fn basic_fish<'a>(deduction: &RDeduction<&'a [RCandidate]>) -> (r: Option<
    (Vec<u8>, Vec<u8>, u8, &'a [RCandidate]),
>)
    ensures
        r is Some <==> kind_of(*deduction) == Some(DeductionKind::BasicFish),
        r matches Some(parts) ==> (parts.0@, parts.1@, parts.2, parts.3@) == basic_fish_of(
            *deduction,
        ) && all_within(parts.0@, 0, 17) && all_within(parts.1@, 0, 8) && 1 <= parts.2 <= 9,
{
    match deduction {
        RDeduction::BasicFish { lines, positions, digit, conflicts } => Some((
            lines.into_iter().map(|line| line.get()).collect(),
            positions.into_iter().map(|position| position.get()).collect(),
            digit.get(),
            *conflicts,
        )),
        _ => None,
    }
}

/// The fields of `Deduction::Fish`: the digit by `Digit::get`, both sets of
/// houses by `Set::bits`, which has no bit above `Set::ALL`, the 27 houses.
#[verifier::external_body]
pub(crate) fn fish<'a>(deduction: &RDeduction<&'a [RCandidate]>) -> (r: Option<
    (u8, u32, u32, &'a [RCandidate]),
>)
    ensures
        r is Some <==> kind_of(*deduction) == Some(DeductionKind::Fish),
        r matches Some(parts) ==> (parts.0, parts.1, parts.2, parts.3@) == fish_of(*deduction)
            && 1 <= parts.0 <= 9 && parts.1 <= 0x7ff_ffff && parts.2 <= 0x7ff_ffff,
{
    match deduction {
        RDeduction::Fish { digit, base, cover, conflicts } => Some(
            (digit.get(), base.bits(), cover.bits(), *conflicts),
        ),
        _ => None,
    }
}

/// The fields of `Deduction::Wing`: the hinge by `Cell::get`, its digits by
/// `Set::bits`, each pincer by `Cell::get`. The sets hold nothing outside
/// their universes of 9 digits and 81 cells.
#[verifier::external_body]
pub(crate) fn wing<'a>(deduction: &RDeduction<&'a [RCandidate]>) -> (r: Option<
    (u8, u16, Vec<u8>, &'a [RCandidate]),
>)
    ensures
        r is Some <==> kind_of(*deduction) == Some(DeductionKind::Wing),
        r matches Some(parts) ==> (parts.0, parts.1, parts.2@, parts.3@) == wing_of(*deduction)
            && parts.1 <= 0x1ff && all_within(parts.2@, 0, 80),
{
    match deduction {
        RDeduction::Wing { hinge, hinge_digits, pincers, conflicts } => Some((
            hinge.get(),
            hinge_digits.bits(),
            pincers.into_iter().map(|cell| cell.get()).collect(),
            *conflicts,
        )),
        _ => None,
    }
}

/// The fields of `Deduction::AvoidableRectangle`, the lines by `Set::bits`,
/// which has no bit above `Set::ALL`, the 18 lines.
#[verifier::external_body]
pub(crate) fn avoidable_rectangle<'a>(deduction: &RDeduction<&'a [RCandidate]>) -> (r: Option<
    (u32, &'a [RCandidate]),
>)
    ensures
        r is Some <==> kind_of(*deduction) == Some(DeductionKind::AvoidableRectangle),
        r matches Some(parts) ==> (parts.0, parts.1@) == avoidable_rectangle_of(*deduction)
            && parts.0 <= 0x3_ffff,
{
    match deduction {
        RDeduction::AvoidableRectangle { lines, conflicts } => Some((lines.bits(), *conflicts)),
        _ => None,
    }
}

/// `Deduction::strategy` on a subset: the technique that found it, naked
/// where the candidates that fall lie outside the cells of the subset,
/// hidden where they lie inside, pairs to quads by the number of
/// positions. The engine looks at the first conflict and panics on a
/// subset of another size.
#[verifier::external_body]
pub(crate) fn subset_strategy(deduction: &RDeduction<&[RCandidate]>) -> (r: RStrategy)
    requires
        kind_of(*deduction) == Some(DeductionKind::Subsets),
        subsets_of(*deduction).3.len() > 0,
        2 <= subsets_of(*deduction).1.len() <= 4,
    ensures
        r == subset_strategy_of(*deduction),
        is_subset_technique(strategy_of(r)),
{
    deduction.strategy()
}

/// `sudoku::strategy::deduction::Deductions`, the steps of one solve.
#[verifier::external_type_specification]
#[verifier::external_body]
pub struct ExDeductions(RDeductions);

/// `sudoku::strategy::StrategySolver`, the engine's solver.
#[verifier::external_type_specification]
#[verifier::external_body]
pub struct ExStrategySolver(RStrategySolver);

/// `sudoku::board::CellState`: a digit or the set of digits left.
#[verifier::external_type_specification]
#[verifier::external_body]
pub struct ExCellState(RCellState);

/// The steps that a container of the engine holds, in the order in which
/// they were made.
pub uninterp spec fn steps_of(deductions: RDeductions) -> Seq<RDeduction<&'static [RCandidate]>>;

/// What a cell state of the engine holds: a digit, or the raw set of the
/// digits that are left.
pub uninterp spec fn cell_state_of(state: RCellState) -> CellState;

/// The grid that a solver has reached: what `StrategySolver::to_sudoku`
/// returns.
pub uninterp spec fn solver_grid(solver: RStrategySolver) -> Seq<u8>;

/// The digits that `StrategySolver::cell_state` gives for a cell without a
/// digit, lowest first.
pub uninterp spec fn solver_candidates(solver: RStrategySolver, cell: u8) -> Seq<u8>;

/// What `StrategySolver::solve` returns.
pub uninterp spec fn solve_result(solver: RStrategySolver, strategies: Seq<RStrategy>) -> Result<
    (RSudoku, RDeductions),
    (RSudoku, RDeductions),
>;

/// `Deductions::len` is the number of steps.
pub assume_specification[ RDeductions::len ](deductions: &RDeductions) -> (len: usize)
    ensures
        len == steps_of(*deductions).len(),
;

/// `Deductions::get` hands out the step at `index`, where there is one. On
/// an avoidable rectangle the engine panics.
pub assume_specification<'a>[ RDeductions::get ](deductions: &'a RDeductions, index: usize) -> (r:
    Option<RDeduction<&'a [RCandidate]>>)
    requires
        index < steps_of(*deductions).len() ==> kind_of(steps_of(*deductions)[index as int])
            != Some(DeductionKind::AvoidableRectangle),
    ensures
        r is Some <==> index < steps_of(*deductions).len(),
        r is Some ==> r->Some_0 == steps_of(*deductions)[index as int],
;

/// `CellState::Digit` of `Digit::new`, which panics on a digit that is not
/// one of 1 to 9.
#[verifier::external_body]
pub(crate) fn digit_state(digit: u8) -> (state: RCellState)
    requires
        1 <= digit <= 9,
    ensures
        cell_state_of(state) == CellState::Digit(digit),
{
    RCellState::Digit(sudoku::board::Digit::new(digit))
}

/// `CellState::Candidates` of `Set::from_bits`, which panics on a bit
/// above the ninth.
#[verifier::external_body]
pub(crate) fn candidates_state(mask: u16) -> (state: RCellState)
    requires
        mask <= 0x1ff,
    ensures
        cell_state_of(state) == CellState::Candidates(mask),
{
    RCellState::Candidates(sudoku::bitset::Set::from_bits(mask))
}

/// `StrategySolver::from_sudoku` starts from the grid given.
pub assume_specification[ RStrategySolver::from_sudoku ](grid: RSudoku) -> (solver: RStrategySolver)
    ensures
        solver_grid(solver) == grid_of(grid),
;

/// `StrategySolver::from_grid_state` starts from the digits among the 81
/// states; a cell given by its candidates is empty, and every digit
/// outside the set given is ruled out for it from the start, so the digits
/// left for it lie in that set.
pub assume_specification[ RStrategySolver::from_grid_state ](grid_state: [RCellState; 81]) -> (solver:
    RStrategySolver)
    ensures
        solver_grid(solver).len() == 81,
        forall|i: int|
            0 <= i < 81 ==> #[trigger] solver_grid(solver)[i] == cell_state_of(
                grid_state[i],
            ).digit(),
        forall|cell: u8, k: int|
            cell < 81 && 0 <= k < solver_candidates(solver, cell).len() ==> cell_state_of(
                grid_state[cell as int],
            ).admits(#[trigger] solver_candidates(solver, cell)[k]),
;

/// `StrategySolver::to_sudoku` hands out the grid reached so far. It writes
/// the entries made so far into the solver's cached grid, which
/// `cell_state` does first as well: the grid and the digits left for each
/// cell stay as they are.
pub assume_specification[ RStrategySolver::to_sudoku ](solver: &mut RStrategySolver) -> (grid:
    RSudoku)
    ensures
        grid_of(grid) == solver_grid(*old(solver)),
        solver_grid(*final(solver)) == solver_grid(*old(solver)),
        forall|cell: u8|
            #[trigger] solver_candidates(*final(solver), cell) == solver_candidates(
                *old(solver),
                cell,
            ),
;

/// `StrategySolver::cell_state` of `Cell::new(cell)`: `None` for a cell
/// that holds a digit, else each digit that is left, by `Digit::get`. The
/// grid stays as it is. The engine indexes the grid by `cell`.
#[verifier::external_body]
pub(crate) fn cell_state(solver: &mut RStrategySolver, cell: u8) -> (digits: Option<Vec<u8>>)
    requires
        cell < 81,
    ensures
        digits is None <==> solver_grid(*old(solver))[cell as int] != 0,
        digits matches Some(left) ==> left@ == solver_candidates(*old(solver), cell)
            && all_within(left@, 1, 9),
        solver_grid(*final(solver)) == solver_grid(*old(solver)),
{
    match solver.cell_state(sudoku::board::Cell::new(cell)) {
        RCellState::Digit(_) => None,
        RCellState::Candidates(left) => Some(left.into_iter().map(|digit| digit.get()).collect()),
    }
}

/// `StrategySolver::insert_candidate` fills an empty cell, accepts the
/// digit that a cell holds already, and refuses another digit for a filled
/// cell. The engine indexes the grid by the candidate's cell.
pub assume_specification[ RStrategySolver::insert_candidate ](
    solver: &mut RStrategySolver,
    candidate: RCandidate,
) -> (r: Result<(), ()>)
    requires
        candidate_of(candidate).cell < 81,
    ensures
        r is Ok <==> (solver_grid(*old(solver))[candidate_of(candidate).cell as int] == 0
            || solver_grid(*old(solver))[candidate_of(candidate).cell as int] == candidate_of(
            candidate,
        ).num),
        solver_grid(*final(solver)) == if solver_grid(*old(solver))[candidate_of(
            candidate,
        ).cell as int] == 0 {
            solver_grid(*old(solver)).update(
                candidate_of(candidate).cell as int,
                candidate_of(candidate).num,
            )
        } else {
            solver_grid(*old(solver))
        },
;

/// `StrategySolver::solve` applies the techniques given until the grid is
/// solved or none of them finds anything, and hands out the grid reached
/// and the steps made, as `Ok` where it counts the grid as solved; the
/// engine documents `Ok` as a solution found. The search is a function of
/// the solver and the techniques. It panics on a technique that it has no
/// search for, and it records no avoidable rectangle.
pub assume_specification[ RStrategySolver::solve ](
    solver: RStrategySolver,
    strategies: &[RStrategy],
) -> (r: Result<(RSudoku, RDeductions), (RSudoku, RDeductions)>)
    requires
        forall|i: int|
            0 <= i < strategies@.len() ==> (#[trigger] strategy_of(
                strategies@[i],
            )).is_available(),
    ensures
        r == solve_result(solver, strategies@),
        r is Ok ==> solved_grid(grid_of(outcome_grid(r))),
        forall|i: int|
            0 <= i < steps_of(outcome_steps(r)).len() ==> kind_of(
                #[trigger] steps_of(outcome_steps(r))[i],
            ) != Some(DeductionKind::AvoidableRectangle),
;

/// The container in either case of what `solve` returns.
pub open spec fn outcome_steps(
    result: Result<(RSudoku, RDeductions), (RSudoku, RDeductions)>,
) -> RDeductions {
    match result {
        Ok(pair) => pair.1,
        Err(pair) => pair.1,
    }
}

/// The grid in either case of what `solve` returns.
pub open spec fn outcome_grid(
    result: Result<(RSudoku, RDeductions), (RSudoku, RDeductions)>,
) -> RSudoku {
    match result {
        Ok(pair) => pair.0,
        Err(pair) => pair.0,
    }
}

} // verus!
