//! One solving step as a tagged record of plain values and bitmasks.

use vstd::prelude::*;
use vstd::std_specs::convert::{FromSpec, FromSpecImpl};
use crate::bitmask::{
    Mask16, Mask32, Mask128, all_within, index_set, mask_of, mask128_of, members, members128,
    below, mask_of_digits, lemma_pack_unpack, lemma_pack_unpack_cells,
    lemma_index_set_below,
    mask_of_positions_house, mask_of_positions_line, mask_of_lines, mask_of_cells,
};
use crate::board::candidate::Candidate;
use crate::engine::{
    avoidable_rectangle, avoidable_rectangle_of, basic_fish, basic_fish_of, candidate_cell,
    candidate_digit, candidate_of, deduction_kind, fish, fish_of, hidden_single,
    hidden_single_of, house_type_from_engine, house_type_of, kind_of, locked_candidates,
    locked_candidates_of, naked_single, naked_single_of, strategy_from_engine, strategy_of,
    subset_strategy, subset_strategy_of, subsets, subsets_of, wing, wing_of,
};
use crate::strategy::strategies::Strategy;
use sudoku::strategy::Deduction as RDeduction;
use sudoku::board::Candidate as RCandidate;
use sudoku::board::positions::HouseType as RHouseType;

verus! {

/// The kind of a solving step.
#[derive(Clone, Copy, Debug, PartialEq, Eq, Structural)]
pub enum DeductionTag {
    NakedSingles,
    HiddenSingles,
    LockedCandidates,
    NakedSubsets,
    HiddenSubsets,
    BasicFish,
    Fish,
    Wing,
    AvoidableRectangle,
}

/// The shape in which the engine records a step. It has one shape for
/// naked and hidden subsets.
#[derive(Clone, Copy, Debug, PartialEq, Eq, Structural)]
pub enum DeductionKind {
    NakedSingles,
    HiddenSingles,
    LockedCandidates,
    Subsets,
    BasicFish,
    Fish,
    Wing,
    AvoidableRectangle,
}

/// Whether the technique finds hidden subsets.
pub open spec fn is_hidden_technique(strategy: Strategy) -> bool {
    strategy == Strategy::HiddenPairs || strategy == Strategy::HiddenTriples || strategy
        == Strategy::HiddenQuads
}

/// Whether the technique finds subsets, naked or hidden.
pub open spec fn is_subset_technique(strategy: Strategy) -> bool {
    is_hidden_technique(strategy) || strategy == Strategy::NakedPairs || strategy
        == Strategy::NakedTriples || strategy == Strategy::NakedQuads
}

/// The kind of a house.
#[derive(Clone, Copy, Debug, PartialEq, Eq, Structural)]
pub enum HouseType {
    Row,
    Col,
    Block,
}

impl From<RHouseType> for HouseType {
    /// The kind of an engine house, without its index.
    fn from(house_type: RHouseType) -> (kind: HouseType) {
        house_type_from_engine(house_type)
    }
}

impl FromSpecImpl<RHouseType> for HouseType {
    open spec fn obeys_from_spec() -> bool {
        true
    }

    open spec fn from_spec(house_type: RHouseType) -> HouseType {
        house_type_of(house_type)
    }
}

/// The candidates that a step rules out: a view into the storage of the
/// container that the step came from. It owns nothing and lives no longer
/// than the container.
#[derive(Clone, Copy, Debug, PartialEq)]
pub struct Conflicts<'a> {
    candidates: &'a [RCandidate],
}

impl<'a> View for Conflicts<'a> {
    type V = Seq<Candidate>;

    open spec fn view(&self) -> Seq<Candidate> {
        self.source().map_values(|candidate: RCandidate| candidate_of(candidate))
    }
}

impl<'a> Conflicts<'a> {
    /// The engine candidates that the view looks at.
    pub closed spec fn source(&self) -> Seq<RCandidate> {
        self.candidates@
    }

    /// The engine candidates that the view looks at, for as long as their
    /// container lives.
    pub fn as_slice(&self) -> (slice: &'a [RCandidate])
        ensures
            slice@ == self.source(),
    {
        self.candidates
    }
}

impl<'a> From<&'a [RCandidate]> for Conflicts<'a> {
    /// Looks at a slice of engine candidates.
    fn from(slice: &'a [RCandidate]) -> (conflicts: Conflicts<'a>) {
        Conflicts { candidates: slice }
    }
}

impl<'a> FromSpecImpl<&'a [RCandidate]> for Conflicts<'a> {
    open spec fn obeys_from_spec() -> bool {
        true
    }

    closed spec fn from_spec(slice: &'a [RCandidate]) -> Conflicts<'a> {
        Conflicts { candidates: slice }
    }
}

/// The view of a slice looks at that slice.
pub proof fn lemma_conflicts_from(slice: &[RCandidate])
    ensures
        <Conflicts as FromSpec<&[RCandidate]>>::from_spec(slice).source() == slice@,
{
}

/// The number of candidates in the view.
pub fn conflicts_len(conflicts: Conflicts) -> (len: usize)
    ensures
        len == conflicts@.len(),
{
    conflicts.candidates.len()
}

/// The candidate at `idx`, and `None` where `idx` is not below the length.
pub fn conflicts_get(conflicts: Conflicts, idx: usize) -> (candidate: Option<Candidate>)
    ensures
        candidate == if idx < conflicts@.len() {
            Some(conflicts@[idx as int])
        } else {
            None
        },
        candidate matches Some(found) ==> 1 <= found.num <= 9,
{
    if idx < conflicts.candidates.len() {
        let cell = candidate_cell(&conflicts.candidates[idx]);
        let num = candidate_digit(&conflicts.candidates[idx]);
        Some(Candidate { cell, num })
    } else {
        None
    }
}

/// A cell that can hold one digit only.
#[derive(Clone, Copy, Debug, PartialEq)]
pub struct NakedSingle {
    pub candidate: Candidate,
}

/// A digit that has one place only in a house.
#[derive(Clone, Copy, Debug, PartialEq)]
pub struct HiddenSingle {
    pub candidate: Candidate,
    pub house_type: HouseType,
}

/// A digit that, in a block or a line, has places in one miniline only.
#[derive(Clone, Copy, Debug, PartialEq)]
pub struct LockedCandidates<'a> {
    pub miniline: u8,
    pub digit: u8,
    pub is_pointing: bool,
    pub conflicts: Conflicts<'a>,
}

/// As many digits as positions in a house, locked to each other.
#[derive(Clone, Copy, Debug, PartialEq)]
pub struct Subsets<'a> {
    pub house: u8,
    pub positions: Mask16,
    pub digits: Mask16,
    pub conflicts: Conflicts<'a>,
}

/// A digit with as many positions as lines: X-wing, swordfish, jellyfish.
#[derive(Clone, Copy, Debug, PartialEq)]
pub struct BasicFish<'a> {
    pub lines: Mask32,
    pub positions: Mask16,
    pub digit: u8,
    pub conflicts: Conflicts<'a>,
}

/// A fish over any houses: base and cover are sets of houses.
#[derive(Clone, Copy, Debug, PartialEq)]
pub struct Fish<'a> {
    pub digit: u8,
    pub base: Mask32,
    pub cover: Mask32,
    pub conflicts: Conflicts<'a>,
}

/// A hinge cell and its pincers.
#[derive(Clone, Copy, Debug, PartialEq)]
pub struct Wing<'a> {
    pub hinge: u8,
    pub hinge_digits: Mask16,
    pub pincers: Mask128,
    pub conflicts: Conflicts<'a>,
}

/// Two rows and two columns whose crossings lie in two blocks of one chute.
#[derive(Clone, Copy, Debug, PartialEq)]
pub struct AvoidableRectangle<'a> {
    pub lines: Mask32,
    pub conflicts: Conflicts<'a>,
}

impl<'a> Subsets<'a> {
    /// Whether the record holds these values, the sets as masks.
    pub open spec fn packs(
        &self,
        house: u8,
        positions: Seq<u8>,
        digits: Seq<u8>,
        conflicts: Seq<RCandidate>,
    ) -> bool {
        &&& self.house == house
        &&& self.positions == mask_of(index_set(positions, 0))
        &&& self.digits == mask_of(index_set(digits, 1))
        &&& self.conflicts.source() == conflicts
    }

    /// Packs the positions and the digits of a subset.
    pub fn new(house: u8, positions: &[u8], digits: &[u8], conflicts: Conflicts<'a>) -> (subsets:
        Subsets<'a>)
        requires
            all_within(positions@, 0, 8),
            all_within(digits@, 1, 9),
        ensures
            subsets.packs(house, positions@, digits@, conflicts.source()),
            subsets.conflicts == conflicts,
            subsets.positions <= 0x1ff,
            subsets.digits <= 0x1ff,
    {
        Subsets {
            house,
            digits: mask_of_digits(digits),
            positions: mask_of_positions_house(positions),
            conflicts,
        }
    }
}

impl<'a> BasicFish<'a> {
    /// Whether the record holds these values, the sets as masks.
    pub open spec fn packs(
        &self,
        lines: Seq<u8>,
        positions: Seq<u8>,
        digit: u8,
        conflicts: Seq<RCandidate>,
    ) -> bool {
        &&& self.lines == mask_of(index_set(lines, 0))
        &&& self.positions == mask_of(index_set(positions, 0))
        &&& self.digit == digit
        &&& self.conflicts.source() == conflicts
    }

    /// Packs the lines and the positions of a basic fish.
    pub fn new(lines: &[u8], positions: &[u8], digit: u8, conflicts: Conflicts<'a>) -> (fish:
        BasicFish<'a>)
        requires
            all_within(lines@, 0, 17),
            all_within(positions@, 0, 8),
        ensures
            fish.packs(lines@, positions@, digit, conflicts.source()),
            fish.conflicts == conflicts,
            fish.lines <= 0x3_ffff,
            fish.positions <= 0x1ff,
    {
        BasicFish {
            lines: mask_of_lines(lines),
            positions: mask_of_positions_line(positions),
            digit,
            conflicts,
        }
    }
}

impl<'a> Wing<'a> {
    /// Whether the record holds these values, the pincers as a mask.
    pub open spec fn packs(
        &self,
        hinge: u8,
        hinge_digits: u16,
        pincers: Seq<u8>,
        conflicts: Seq<RCandidate>,
    ) -> bool {
        &&& self.hinge == hinge
        &&& self.hinge_digits == hinge_digits
        &&& self.pincers@ == mask128_of(index_set(pincers, 0))
        &&& self.conflicts.source() == conflicts
    }

    /// Packs the pincers of a wing.
    pub fn new(hinge: u8, hinge_digits: Mask16, pincers: &[u8], conflicts: Conflicts<'a>) -> (wing:
        Wing<'a>)
        requires
            all_within(pincers@, 0, 80),
        ensures
            wing.packs(hinge, hinge_digits, pincers@, conflicts.source()),
            wing.conflicts == conflicts,
            wing.pincers[1] <= 0x1_ffff,
    {
        Wing { hinge, hinge_digits, pincers: mask_of_cells(pincers), conflicts }
    }
}

/// Nothing is lost in a subset: its masks unpack to the positions and the
/// digits that were packed.
pub proof fn lemma_subsets_lossless(
    subsets: Subsets,
    house: u8,
    positions: Seq<u8>,
    digits: Seq<u8>,
    conflicts: Seq<RCandidate>,
)
    requires
        subsets.packs(house, positions, digits, conflicts),
        all_within(positions, 0, 8),
        all_within(digits, 1, 9),
    ensures
        members(subsets.positions as u64) == index_set(positions, 0),
        members(subsets.digits as u64) == index_set(digits, 1),
{
    lemma_index_set_below(positions, 0, 9);
    lemma_index_set_below(digits, 1, 9);
    lemma_pack_unpack(index_set(positions, 0), 9);
    lemma_pack_unpack(index_set(digits, 1), 9);
}

/// Nothing is lost in a basic fish: its masks unpack to the lines and the
/// positions that were packed.
pub proof fn lemma_basic_fish_lossless(
    fish: BasicFish,
    lines: Seq<u8>,
    positions: Seq<u8>,
    digit: u8,
    conflicts: Seq<RCandidate>,
)
    requires
        fish.packs(lines, positions, digit, conflicts),
        all_within(lines, 0, 17),
        all_within(positions, 0, 8),
    ensures
        members(fish.lines as u64) == index_set(lines, 0),
        members(fish.positions as u64) == index_set(positions, 0),
{
    lemma_index_set_below(lines, 0, 18);
    lemma_index_set_below(positions, 0, 9);
    lemma_pack_unpack(index_set(lines, 0), 18);
    lemma_pack_unpack(index_set(positions, 0), 9);
}

/// Nothing is lost in a wing: its mask unpacks to the pincers that were
/// packed.
pub proof fn lemma_wing_lossless(
    wing: Wing,
    hinge: u8,
    hinge_digits: u16,
    pincers: Seq<u8>,
    conflicts: Seq<RCandidate>,
)
    requires
        wing.packs(hinge, hinge_digits, pincers, conflicts),
        all_within(pincers, 0, 80),
    ensures
        members128(wing.pincers@) == index_set(pincers, 0),
{
    lemma_index_set_below(pincers, 0, 81);
    assert forall|i: int| index_set(pincers, 0).contains(i) implies below(128).contains(i) by {
        assert(below(81).contains(i));
    }
    lemma_pack_unpack_cells(index_set(pincers, 0));
}

/// What a step holds, by its kind.
#[derive(Clone, Copy, Debug, PartialEq)]
pub enum DeductionData<'a> {
    NakedSingles(NakedSingle),
    HiddenSingles(HiddenSingle),
    LockedCandidates(LockedCandidates<'a>),
    NakedSubsets(Subsets<'a>),
    HiddenSubsets(Subsets<'a>),
    BasicFish(BasicFish<'a>),
    Fish(Fish<'a>),
    Wing(Wing<'a>),
    AvoidableRectangle(AvoidableRectangle<'a>),
}

impl<'a> DeductionData<'a> {
    /// Whether no mask has a bit outside its universe: 9 digits, 9
    /// positions, 18 lines, 27 houses, 81 cells.
    pub open spec fn masks_fit(&self) -> bool {
        match self {
            DeductionData::NakedSubsets(subsets) => subsets.positions <= 0x1ff
                && subsets.digits <= 0x1ff,
            DeductionData::HiddenSubsets(subsets) => subsets.positions <= 0x1ff
                && subsets.digits <= 0x1ff,
            DeductionData::BasicFish(fish) => fish.lines <= 0x3_ffff && fish.positions <= 0x1ff,
            DeductionData::Fish(fish) => fish.base <= 0x7ff_ffff && fish.cover <= 0x7ff_ffff,
            DeductionData::Wing(wing) => wing.hinge_digits <= 0x1ff && wing.pincers[1]
                <= 0x1_ffff,
            DeductionData::AvoidableRectangle(rectangle) => rectangle.lines <= 0x3_ffff,
            _ => true,
        }
    }

    /// The tag that goes with the payload.
    pub fn tag_of_data(&self) -> (tag: DeductionTag)
        ensures
            tag == self.tag(),
    {
        match self {
            DeductionData::NakedSingles(_) => DeductionTag::NakedSingles,
            DeductionData::HiddenSingles(_) => DeductionTag::HiddenSingles,
            DeductionData::LockedCandidates(_) => DeductionTag::LockedCandidates,
            DeductionData::NakedSubsets(_) => DeductionTag::NakedSubsets,
            DeductionData::HiddenSubsets(_) => DeductionTag::HiddenSubsets,
            DeductionData::BasicFish(_) => DeductionTag::BasicFish,
            DeductionData::Fish(_) => DeductionTag::Fish,
            DeductionData::Wing(_) => DeductionTag::Wing,
            DeductionData::AvoidableRectangle(_) => DeductionTag::AvoidableRectangle,
        }
    }

    /// The tag that goes with the payload.
    pub open spec fn tag(&self) -> DeductionTag {
        match self {
            DeductionData::NakedSingles(_) => DeductionTag::NakedSingles,
            DeductionData::HiddenSingles(_) => DeductionTag::HiddenSingles,
            DeductionData::LockedCandidates(_) => DeductionTag::LockedCandidates,
            DeductionData::NakedSubsets(_) => DeductionTag::NakedSubsets,
            DeductionData::HiddenSubsets(_) => DeductionTag::HiddenSubsets,
            DeductionData::BasicFish(_) => DeductionTag::BasicFish,
            DeductionData::Fish(_) => DeductionTag::Fish,
            DeductionData::Wing(_) => DeductionTag::Wing,
            DeductionData::AvoidableRectangle(_) => DeductionTag::AvoidableRectangle,
        }
    }
}

/// One solving step: its kind and what that kind holds.
#[derive(Clone, Copy, Debug, PartialEq)]
pub struct Deduction<'a> {
    pub tag: DeductionTag,
    pub data: DeductionData<'a>,
}

/// Whether the engine can tell a subset's technique: some candidate falls
/// and the subset has two to four positions.
pub open spec fn subset_told_apart(deduction: RDeduction<&[RCandidate]>) -> bool {
    subsets_of(deduction).3.len() > 0 && 2 <= subsets_of(deduction).1.len() <= 4
}

/// The tag of a step of the engine: one for each shape, and for a subset
/// the naked or the hidden one after the technique that found it. There is
/// none for a shape that this library does not know, nor for a subset
/// whose technique the engine cannot tell.
pub open spec fn tag_of(deduction: RDeduction<&[RCandidate]>) -> Option<DeductionTag> {
    match kind_of(deduction) {
        None => None,
        Some(DeductionKind::NakedSingles) => Some(DeductionTag::NakedSingles),
        Some(DeductionKind::HiddenSingles) => Some(DeductionTag::HiddenSingles),
        Some(DeductionKind::LockedCandidates) => Some(DeductionTag::LockedCandidates),
        Some(DeductionKind::Subsets) => if !subset_told_apart(deduction) {
            None
        } else if is_hidden_technique(strategy_of(subset_strategy_of(deduction))) {
            Some(DeductionTag::HiddenSubsets)
        } else {
            Some(DeductionTag::NakedSubsets)
        },
        Some(DeductionKind::BasicFish) => Some(DeductionTag::BasicFish),
        Some(DeductionKind::Fish) => Some(DeductionTag::Fish),
        Some(DeductionKind::Wing) => Some(DeductionTag::Wing),
        Some(DeductionKind::AvoidableRectangle) => Some(DeductionTag::AvoidableRectangle),
    }
}

/// Steps of different shapes have different tags, and steps of one shape
/// have one tag; only subsets have two, and two subsets have the same tag
/// exactly when both are naked or both are hidden.
pub proof fn lemma_one_tag_per_kind(
    first: RDeduction<&[RCandidate]>,
    second: RDeduction<&[RCandidate]>,
)
    requires
        tag_of(first) is Some,
        tag_of(second) is Some,
    ensures
        kind_of(first) != kind_of(second) ==> tag_of(first) != tag_of(second),
        kind_of(first) == kind_of(second) && kind_of(first) != Some(DeductionKind::Subsets)
            ==> tag_of(first) == tag_of(second),
        kind_of(first) == kind_of(second) && kind_of(first) == Some(DeductionKind::Subsets) ==> (
        tag_of(first) == tag_of(second) <==> is_hidden_technique(
            strategy_of(subset_strategy_of(first)),
        ) == is_hidden_technique(strategy_of(subset_strategy_of(second)))),
{
}

/// Whether `data` holds what the engine recorded in `deduction`, value for
/// value, each set as the mask of its members.
pub open spec fn records(data: DeductionData, deduction: RDeduction<&[RCandidate]>) -> bool {
    match data {
        DeductionData::NakedSingles(single) => single.candidate == candidate_of(
            naked_single_of(deduction),
        ),
        DeductionData::HiddenSingles(single) => single.candidate == candidate_of(
            hidden_single_of(deduction).0,
        ) && single.house_type == house_type_of(hidden_single_of(deduction).1),
        DeductionData::LockedCandidates(locked) => {
            let parts = locked_candidates_of(deduction);
            &&& locked.miniline == parts.0
            &&& locked.digit == parts.1
            &&& locked.is_pointing == parts.2
            &&& locked.conflicts.source() == parts.3
        },
        DeductionData::NakedSubsets(subsets) => {
            let parts = subsets_of(deduction);
            subsets.packs(parts.0, parts.1, parts.2, parts.3)
        },
        DeductionData::HiddenSubsets(subsets) => {
            let parts = subsets_of(deduction);
            subsets.packs(parts.0, parts.1, parts.2, parts.3)
        },
        DeductionData::BasicFish(fish) => {
            let parts = basic_fish_of(deduction);
            fish.packs(parts.0, parts.1, parts.2, parts.3)
        },
        DeductionData::Fish(fish) => {
            let parts = fish_of(deduction);
            &&& fish.digit == parts.0
            &&& fish.base == parts.1
            &&& fish.cover == parts.2
            &&& fish.conflicts.source() == parts.3
        },
        DeductionData::Wing(wing) => {
            let parts = wing_of(deduction);
            wing.packs(parts.0, parts.1, parts.2, parts.3)
        },
        DeductionData::AvoidableRectangle(rectangle) => {
            let parts = avoidable_rectangle_of(deduction);
            &&& rectangle.lines == parts.0
            &&& rectangle.conflicts.source() == parts.1
        },
    }
}

impl<'a> Deduction<'a> {
    /// Whether the tag is the one of the payload.
    pub open spec fn wf(&self) -> bool {
        self.tag == self.data.tag()
    }

    /// Turns a step of the engine into a tagged record: one tag for each
    /// kind, the values as they are, each set of positions, lines or cells
    /// as a mask.
    pub fn from(deduction: RDeduction<&'a [RCandidate]>) -> (step: Deduction<'a>)
        requires
            tag_of(deduction) is Some,
        ensures
            step.wf(),
            Some(step.tag) == tag_of(deduction),
            records(step.data, deduction),
            step.data.masks_fit(),
    {
        let data = match deduction_kind(&deduction).unwrap() {
            DeductionKind::NakedSingles => {
                let candidate = naked_single(&deduction).unwrap();
                DeductionData::NakedSingles(NakedSingle { candidate: Candidate::from(candidate) })
            },
            DeductionKind::HiddenSingles => {
                let (candidate, house_type) = hidden_single(&deduction).unwrap();
                DeductionData::HiddenSingles(
                    HiddenSingle {
                        candidate: Candidate::from(candidate),
                        house_type: HouseType::from(house_type),
                    },
                )
            },
            DeductionKind::LockedCandidates => {
                let (miniline, digit, is_pointing, conflicts) = locked_candidates(
                    &deduction,
                ).unwrap();
                DeductionData::LockedCandidates(
                    LockedCandidates {
                        miniline,
                        digit,
                        is_pointing,
                        conflicts: Conflicts::from(conflicts),
                    },
                )
            },
            DeductionKind::Subsets => {
                let (house, positions, digits, conflicts) = subsets(&deduction).unwrap();
                let record = Subsets::new(
                    house,
                    positions.as_slice(),
                    digits.as_slice(),
                    Conflicts::from(conflicts),
                );
                let technique = strategy_from_engine(&subset_strategy(&deduction));
                match technique {
                    Strategy::HiddenPairs => DeductionData::HiddenSubsets(record),
                    Strategy::HiddenTriples => DeductionData::HiddenSubsets(record),
                    Strategy::HiddenQuads => DeductionData::HiddenSubsets(record),
                    _ => DeductionData::NakedSubsets(record),
                }
            },
            DeductionKind::BasicFish => {
                let (lines, positions, digit, conflicts) = basic_fish(&deduction).unwrap();
                DeductionData::BasicFish(
                    BasicFish::new(
                        lines.as_slice(),
                        positions.as_slice(),
                        digit,
                        Conflicts::from(conflicts),
                    ),
                )
            },
            DeductionKind::Fish => {
                let (digit, base, cover, conflicts) = fish(&deduction).unwrap();
                DeductionData::Fish(
                    Fish { digit, base, cover, conflicts: Conflicts::from(conflicts) },
                )
            },
            DeductionKind::Wing => {
                let (hinge, hinge_digits, pincers, conflicts) = wing(&deduction).unwrap();
                DeductionData::Wing(
                    Wing::new(hinge, hinge_digits, pincers.as_slice(), Conflicts::from(conflicts)),
                )
            },
            DeductionKind::AvoidableRectangle => {
                let (lines, conflicts) = avoidable_rectangle(&deduction).unwrap();
                DeductionData::AvoidableRectangle(
                    AvoidableRectangle { lines, conflicts: Conflicts::from(conflicts) },
                )
            },
        };
        let tag = data.tag_of_data();
        Deduction { tag, data }
    }
}

/// The tag of a step of the engine, where it has one.
pub fn read_tag(deduction: &RDeduction<&[RCandidate]>) -> (tag: Option<DeductionTag>)
    ensures
        tag == tag_of(*deduction),
{
    match deduction_kind(deduction) {
        None => None,
        Some(DeductionKind::NakedSingles) => Some(DeductionTag::NakedSingles),
        Some(DeductionKind::HiddenSingles) => Some(DeductionTag::HiddenSingles),
        Some(DeductionKind::LockedCandidates) => Some(DeductionTag::LockedCandidates),
        Some(DeductionKind::Subsets) => {
            let (_, positions, _, conflicts) = subsets(deduction).unwrap();
            if conflicts.len() == 0 || positions.len() < 2 || positions.len() > 4 {
                return None;
            }
            match strategy_from_engine(&subset_strategy(deduction)) {
                Strategy::HiddenPairs => Some(DeductionTag::HiddenSubsets),
                Strategy::HiddenTriples => Some(DeductionTag::HiddenSubsets),
                Strategy::HiddenQuads => Some(DeductionTag::HiddenSubsets),
                _ => Some(DeductionTag::NakedSubsets),
            }
        },
        Some(DeductionKind::BasicFish) => Some(DeductionTag::BasicFish),
        Some(DeductionKind::Fish) => Some(DeductionTag::Fish),
        Some(DeductionKind::Wing) => Some(DeductionTag::Wing),
        Some(DeductionKind::AvoidableRectangle) => Some(DeductionTag::AvoidableRectangle),
    }
}

/// What a step does to the grid: it forces one entry, or it rules
/// candidates out.
#[derive(Clone, Copy, Debug, PartialEq)]
pub enum DeductionResult<'a> {
    Forced(Candidate),
    Eliminated(Conflicts<'a>),
}

/// The conflicts of a payload that has some.
pub open spec fn conflicts_of<'a>(data: DeductionData<'a>) -> Option<Conflicts<'a>> {
    match data {
        DeductionData::NakedSingles(_) => None,
        DeductionData::HiddenSingles(_) => None,
        DeductionData::LockedCandidates(locked) => Some(locked.conflicts),
        DeductionData::NakedSubsets(subsets) => Some(subsets.conflicts),
        DeductionData::HiddenSubsets(subsets) => Some(subsets.conflicts),
        DeductionData::BasicFish(fish) => Some(fish.conflicts),
        DeductionData::Fish(fish) => Some(fish.conflicts),
        DeductionData::Wing(wing) => Some(wing.conflicts),
        DeductionData::AvoidableRectangle(rectangle) => Some(rectangle.conflicts),
    }
}

/// What follows from a step: the entry of a single, the conflicts of any
/// other kind.
pub open spec fn results_of<'a>(data: DeductionData<'a>) -> DeductionResult<'a> {
    match data {
        DeductionData::NakedSingles(single) => DeductionResult::Forced(single.candidate),
        DeductionData::HiddenSingles(single) => DeductionResult::Forced(single.candidate),
        _ => DeductionResult::Eliminated(conflicts_of(data)->Some_0),
    }
}

/// What follows from a step.
pub fn deduction_results<'a>(deduction: Deduction<'a>) -> (results: DeductionResult<'a>)
    ensures
        results == results_of(deduction.data),
{
    match deduction.data {
        DeductionData::NakedSingles(single) => DeductionResult::Forced(single.candidate),
        DeductionData::HiddenSingles(single) => DeductionResult::Forced(single.candidate),
        DeductionData::LockedCandidates(locked) => DeductionResult::Eliminated(locked.conflicts),
        DeductionData::NakedSubsets(subsets) => DeductionResult::Eliminated(subsets.conflicts),
        DeductionData::HiddenSubsets(subsets) => DeductionResult::Eliminated(subsets.conflicts),
        DeductionData::BasicFish(fish) => DeductionResult::Eliminated(fish.conflicts),
        DeductionData::Fish(fish) => DeductionResult::Eliminated(fish.conflicts),
        DeductionData::Wing(wing) => DeductionResult::Eliminated(wing.conflicts),
        DeductionData::AvoidableRectangle(rectangle) => DeductionResult::Eliminated(
            rectangle.conflicts,
        ),
    }
}

/// The number of entries that a result speaks of: 1 for a forced entry,
/// else the number of candidates ruled out.
pub fn deduction_result_len(results: DeductionResult) -> (len: usize)
    ensures
        len == match results {
            DeductionResult::Forced(_) => 1,
            DeductionResult::Eliminated(conflicts) => conflicts@.len(),
        },
{
    match results {
        DeductionResult::Forced(_) => 1,
        DeductionResult::Eliminated(conflicts) => conflicts_len(conflicts),
    }
}

/// The forced entry, where the result is one.
pub fn deduction_result_get_forced_entry(results: DeductionResult) -> (entry: Option<Candidate>)
    ensures
        entry == match results {
            DeductionResult::Forced(forced) => Some(forced),
            DeductionResult::Eliminated(_) => None,
        },
{
    match results {
        DeductionResult::Forced(forced) => Some(forced),
        DeductionResult::Eliminated(_) => None,
    }
}

/// The candidate ruled out at `idx`, where the result rules candidates out
/// and `idx` is below their number.
pub fn deduction_result_get_eliminated_entry(results: DeductionResult, idx: usize) -> (entry:
    Option<Candidate>)
    ensures
        entry == match results {
            DeductionResult::Forced(_) => None,
            DeductionResult::Eliminated(conflicts) => if idx < conflicts@.len() {
                Some(conflicts@[idx as int])
            } else {
                None
            },
        },
{
    match results {
        DeductionResult::Forced(_) => None,
        DeductionResult::Eliminated(conflicts) => conflicts_get(conflicts, idx),
    }
}

} // verus!
