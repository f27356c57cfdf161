//! The steps of one solve, in the order in which they were made.

use vstd::prelude::*;
use crate::engine::{kind_of, steps_of};
use crate::strategy::deduction::{read_tag, records, tag_of, Deduction, DeductionKind};
use sudoku::board::Candidate as RCandidate;
use sudoku::strategy::Deduction as RDeduction;
use sudoku::strategy::deduction::Deductions as RDeductions;

verus! {

/// The steps that a solve made. The engine made the container and this
/// value owns it: the steps read from it, and the conflicts in them, borrow
/// from it and end with it.
#[derive(Debug)]
pub struct Deductions {
    deductions: RDeductions,
}

impl View for Deductions {
    type V = Seq<RDeduction<&'static [RCandidate]>>;

    closed spec fn view(&self) -> Seq<RDeduction<&'static [RCandidate]>> {
        steps_of(self.deductions)
    }
}

impl Deductions {
    /// No step is an avoidable rectangle: the engine cannot hand one out.
    #[verifier::type_invariant]
    pub closed spec fn inv(self) -> bool {
        forall|i: int|
            0 <= i < steps_of(self.deductions).len() ==> kind_of(
                #[trigger] steps_of(self.deductions)[i],
            ) != Some(DeductionKind::AvoidableRectangle)
    }

    /// The container that the engine's handle stands for.
    pub closed spec fn source(&self) -> RDeductions {
        self.deductions
    }

    /// The engine's container, to read from.
    pub fn as_rdeductions(&self) -> (deductions: &RDeductions)
        ensures
            *deductions == self.source(),
    {
        &self.deductions
    }

    /// Takes over a container of the engine that holds no avoidable
    /// rectangle.
    pub(crate) fn new(deductions: RDeductions) -> (container: Deductions)
        requires
            forall|i: int|
                0 <= i < steps_of(deductions).len() ==> kind_of(#[trigger] steps_of(deductions)[i])
                    != Some(DeductionKind::AvoidableRectangle),
        ensures
            container.source() == deductions,
            container@ == steps_of(deductions),
    {
        Deductions { deductions }
    }
}

/// The number of steps.
pub fn deductions_len(deductions: &Deductions) -> (len: usize)
    ensures
        len == deductions@.len(),
{
    deductions.deductions.len()
}

/// The step at `idx` as a tagged record. There is none where `idx` is not
/// below the length, nor for a step without a tag.
pub fn deductions_get<'a>(deductions: &'a Deductions, idx: usize) -> (record: Option<
    Deduction<'a>,
>)
    ensures
        record is Some <==> idx < deductions@.len() && tag_of(deductions@[idx as int]) is Some,
        record matches Some(step) ==> step.wf() && Some(step.tag) == tag_of(
            deductions@[idx as int],
        ) && records(step.data, deductions@[idx as int]) && step.data.masks_fit(),
{
    proof {
        use_type_invariant(deductions);
    }
    match deductions.deductions.get(idx) {
        Some(deduction) => match read_tag(&deduction) {
            Some(_) => Some(Deduction::from(deduction)),
            None => None,
        },
        None => None,
    }
}

} // verus!
