use vstd::prelude::*;

use crate::accumulator::Accumulator;
use crate::AccountId;

verus! {

/// Decreases the value of the accumulator it was created for.
#[derive(Debug, Clone, Copy, PartialEq, Eq, Structural)]
pub struct Subber {
    /// The identity of the accumulator that holds the value.
    pub accumulator: AccountId,
}

impl Subber {
    /// Creates a subber bound to the given accumulator.
    pub fn new(accumulator_code: AccountId) -> (r: Self)
        ensures
            r.accumulator == accumulator_code,
    {
        Subber { accumulator: accumulator_code }
    }

    /// Decreases the accumulator's value by `by`: the accumulator is handed `-by`.
    pub fn dec(&mut self, accumulator: &mut Accumulator, by: i32)
        requires
            by != i32::MIN,
            i32::MIN <= old(accumulator)@ - by <= i32::MAX,
        ensures
            *final(self) == *old(self),
            final(accumulator)@ == old(accumulator)@ - by,
    {
        accumulator.inc(-by);
    }
}

} // verus!
