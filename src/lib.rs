use vstd::prelude::*;

pub mod accumulator;
pub mod adder;
pub mod counter;
pub mod forward;
pub mod subber;

verus! {

/// The identity of a caller, as handed over by the execution environment.
/// Only compared for equality.
#[derive(Debug, Clone, Copy, PartialEq, Eq, Structural)]
pub struct AccountId(pub u64);

} // verus!
