//! Sizes that are never zero.

use vstd::prelude::*;

verus! {

/// A number of items or bytes, at least one.
#[derive(Debug, Clone, Copy)]
pub struct NonZeroSize {
    value: usize,
}

impl NonZeroSize {
    /// Holds of every size.
    #[verifier::type_invariant]
    pub open spec fn at_least_one(self) -> bool {
        self.spec_value() != 0
    }

    /// The number itself.
    pub closed spec fn spec_value(self) -> usize {
        self.value
    }

    /// The size `value`, or `None` for zero.
    pub fn new(value: usize) -> (size: Option<NonZeroSize>)
        ensures
            size is Some <==> value != 0,
            size matches Some(s) ==> s.spec_value() == value,
    {
        if value == 0 {
            None
        } else {
            Some(NonZeroSize { value })
        }
    }

    /// The number itself, which is never zero.
    pub fn get(self) -> (value: usize)
        ensures
            value == self.spec_value(),
            value != 0,
    {
        proof {
            use_type_invariant(&self);
        }
        self.value
    }
}

} // verus!
