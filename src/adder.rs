use vstd::prelude::*;

use crate::accumulator::Accumulator;
use crate::AccountId;

verus! {

/// Increments the value of the accumulator it was created for.
#[derive(Debug, Clone, Copy, PartialEq, Eq, Structural)]
pub struct Adder {
    /// The identity of the accumulator that holds the value.
    pub accumulator: AccountId,
}

impl Adder {
    /// Creates an adder bound to the given accumulator.
    pub fn new(accumulator_code: AccountId) -> (r: Self)
        ensures
            r.accumulator == accumulator_code,
    {
        Adder { accumulator: accumulator_code }
    }

    /// Increases the accumulator's value by `by`.
    pub fn inc(&mut self, accumulator: &mut Accumulator, by: i32)
        requires
            i32::MIN <= old(accumulator)@ + by <= i32::MAX,
        ensures
            *final(self) == *old(self),
            final(accumulator)@ == old(accumulator)@ + by,
    {
        accumulator.inc(by);
    }
}

} // verus!
