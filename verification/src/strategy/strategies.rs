//! The solving techniques by name and by code.

use vstd::prelude::*;
use vstd::std_specs::convert::FromSpecImpl;
use crate::engine::{
    engine_hidden_pairs, engine_hidden_quads, engine_hidden_singles, engine_hidden_triples,
    engine_jellyfish, engine_locked_candidates, engine_naked_pairs, engine_naked_quads,
    engine_naked_singles, engine_naked_triples, engine_swordfish, engine_xwing, rstrategy_of,
    strategy_from_engine, strategy_of,
};
use sudoku::strategy::Strategy as RStrategy;

verus! {

/// A solving technique. `UnknownStrategy` stands for every technique of the
/// engine that has no name here.
#[derive(Clone, Copy, Debug, PartialEq, Eq, Structural)]
pub enum Strategy {
    NakedSingles,
    HiddenSingles,
    LockedCandidates,
    NakedPairs,
    NakedTriples,
    NakedQuads,
    HiddenPairs,
    HiddenTriples,
    HiddenQuads,
    XWing,
    Swordfish,
    Jellyfish,
    SinglesChain,
    UnknownStrategy,
}

/// The code of `UnknownStrategy`: the largest value of a byte.
pub const UNKNOWN_STRATEGY_CODE: u8 = 255;

impl Strategy {
    /// The code of the technique: its place in the list, from 0, and 255
    /// for `UnknownStrategy`.
    pub open spec fn spec_code(self) -> u8 {
        match self {
            Strategy::NakedSingles => 0,
            Strategy::HiddenSingles => 1,
            Strategy::LockedCandidates => 2,
            Strategy::NakedPairs => 3,
            Strategy::NakedTriples => 4,
            Strategy::NakedQuads => 5,
            Strategy::HiddenPairs => 6,
            Strategy::HiddenTriples => 7,
            Strategy::HiddenQuads => 8,
            Strategy::XWing => 9,
            Strategy::Swordfish => 10,
            Strategy::Jellyfish => 11,
            Strategy::SinglesChain => 12,
            Strategy::UnknownStrategy => 255,
        }
    }

    /// The technique with the code `code`, and `UnknownStrategy` where no
    /// named technique has it.
    pub open spec fn spec_from_code(code: u8) -> Strategy {
        if code == 0 {
            Strategy::NakedSingles
        } else if code == 1 {
            Strategy::HiddenSingles
        } else if code == 2 {
            Strategy::LockedCandidates
        } else if code == 3 {
            Strategy::NakedPairs
        } else if code == 4 {
            Strategy::NakedTriples
        } else if code == 5 {
            Strategy::NakedQuads
        } else if code == 6 {
            Strategy::HiddenPairs
        } else if code == 7 {
            Strategy::HiddenTriples
        } else if code == 8 {
            Strategy::HiddenQuads
        } else if code == 9 {
            Strategy::XWing
        } else if code == 10 {
            Strategy::Swordfish
        } else if code == 11 {
            Strategy::Jellyfish
        } else if code == 12 {
            Strategy::SinglesChain
        } else {
            Strategy::UnknownStrategy
        }
    }

    /// Whether the engine has the technique: every named one but
    /// `SinglesChain`.
    pub open spec fn is_available(self) -> bool {
        self != Strategy::UnknownStrategy && self != Strategy::SinglesChain
    }

    /// The code of the technique.
    pub fn code(self) -> (code: u8)
        ensures
            code == self.spec_code(),
    {
        match self {
            Strategy::NakedSingles => 0,
            Strategy::HiddenSingles => 1,
            Strategy::LockedCandidates => 2,
            Strategy::NakedPairs => 3,
            Strategy::NakedTriples => 4,
            Strategy::NakedQuads => 5,
            Strategy::HiddenPairs => 6,
            Strategy::HiddenTriples => 7,
            Strategy::HiddenQuads => 8,
            Strategy::XWing => 9,
            Strategy::Swordfish => 10,
            Strategy::Jellyfish => 11,
            Strategy::SinglesChain => 12,
            Strategy::UnknownStrategy => UNKNOWN_STRATEGY_CODE,
        }
    }

    /// The technique with the code `code`.
    pub fn from_code(code: u8) -> (strategy: Strategy)
        ensures
            strategy == Strategy::spec_from_code(code),
    {
        match code {
            0 => Strategy::NakedSingles,
            1 => Strategy::HiddenSingles,
            2 => Strategy::LockedCandidates,
            3 => Strategy::NakedPairs,
            4 => Strategy::NakedTriples,
            5 => Strategy::NakedQuads,
            6 => Strategy::HiddenPairs,
            7 => Strategy::HiddenTriples,
            8 => Strategy::HiddenQuads,
            9 => Strategy::XWing,
            10 => Strategy::Swordfish,
            11 => Strategy::Jellyfish,
            12 => Strategy::SinglesChain,
            _ => Strategy::UnknownStrategy,
        }
    }

    /// The engine's technique of the same name, which is the only one that
    /// has this name. There is none for `UnknownStrategy`, which is
    /// refused, nor for `SinglesChain`.
    pub fn to_rstrategy(self) -> (strategy: Option<RStrategy>)
        ensures
            strategy is Some <==> self.is_available(),
            strategy is Some ==> strategy->Some_0 == rstrategy_of(self),
            strategy is Some ==> strategy_of(strategy->Some_0) == self,
            strategy is Some ==> forall|other: RStrategy| #[trigger]
                strategy_of(other) == self ==> other == strategy->Some_0,
    {
        match self {
            Strategy::NakedSingles => Some(engine_naked_singles()),
            Strategy::HiddenSingles => Some(engine_hidden_singles()),
            Strategy::LockedCandidates => Some(engine_locked_candidates()),
            Strategy::NakedPairs => Some(engine_naked_pairs()),
            Strategy::NakedTriples => Some(engine_naked_triples()),
            Strategy::NakedQuads => Some(engine_naked_quads()),
            Strategy::HiddenPairs => Some(engine_hidden_pairs()),
            Strategy::HiddenTriples => Some(engine_hidden_triples()),
            Strategy::HiddenQuads => Some(engine_hidden_quads()),
            Strategy::XWing => Some(engine_xwing()),
            Strategy::Swordfish => Some(engine_swordfish()),
            Strategy::Jellyfish => Some(engine_jellyfish()),
            Strategy::SinglesChain => None,
            Strategy::UnknownStrategy => None,
        }
    }
}

impl From<RStrategy> for Strategy {
    /// The name that the engine's technique has here, and
    /// `UnknownStrategy` where it has none.
    fn from(strat: RStrategy) -> (strategy: Strategy) {
        strategy_from_engine(&strat)
    }
}

impl FromSpecImpl<RStrategy> for Strategy {
    open spec fn obeys_from_spec() -> bool {
        true
    }

    open spec fn from_spec(strat: RStrategy) -> Strategy {
        strategy_of(strat)
    }
}

/// A technique is found again from its code.
pub proof fn lemma_code_round_trip(strategy: Strategy)
    ensures
        Strategy::spec_from_code(strategy.spec_code()) == strategy,
{
}

/// A code is found again from its technique exactly when it is the code of
/// one: 0 to 12, or 255.
pub proof fn lemma_code_of_code(code: u8)
    ensures
        Strategy::spec_from_code(code).spec_code() == code <==> (code <= 12 || code == 255),
{
}

} // verus!
