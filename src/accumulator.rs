use vstd::prelude::*;

verus! {

/// Holds a single signed value that any caller may change by a delta.
pub struct Accumulator {
    value: i32,
}

impl View for Accumulator {
    type V = i32;

    closed spec fn view(&self) -> i32 {
        self.value
    }
}

impl Accumulator {
    pub fn new(init_value: i32) -> (r: Self)
        ensures
            r@ == init_value,
    {
        Accumulator { value: init_value }
    }

    /// Returns the current value.
    pub fn get(&self) -> (r: i32)
        ensures
            r == self@,
    {
        self.value
    }

    /// Adds `by` to the value.
    pub fn inc(&mut self, by: i32)
        requires
            i32::MIN <= old(self)@ + by <= i32::MAX,
        ensures
            final(self)@ == old(self)@ + by,
    {
        self.value = self.value + by;
    }
}

} // verus!
