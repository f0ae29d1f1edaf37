//! Small types shared by the modules.

use vstd::prelude::*;

verus! {

/// A 32-bit integer that is not negative.
#[derive(Debug, Clone, Copy, PartialEq, Eq)]
pub struct NonNegativeI32(i32);

impl NonNegativeI32 {
    #[verifier::type_invariant]
    spec fn not_negative(self) -> bool {
        self.0 >= 0
    }

    /// The integer.
    pub closed spec fn value(self) -> int {
        self.0 as int
    }

    /// The integer as a value of this type, if it is not negative.
    pub fn new(value: i32) -> (r: Option<Self>)
        ensures
            r is Some <==> value >= 0,
            r is Some ==> r->0.value() == value,
    {
        if value >= 0 {
            Some(NonNegativeI32(value))
        } else {
            None
        }
    }

    /// The integer.
    pub fn get(self) -> (r: i32)
        ensures
            r == self.value(),
            r >= 0,
    {
        proof {
            use_type_invariant(&self);
        }
        self.0
    }
}

} // verus!
