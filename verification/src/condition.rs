//! Branch conditions.

use vstd::prelude::*;

verus! {

/// A branch predicate over the zero and carry flags.
#[derive(Debug, Clone, Copy, PartialEq, Eq, Structural)]
pub enum Condition {
    /// The zero flag is set.
    Z1,
    /// The zero flag is clear.
    Z0,
    /// The carry flag is set.
    C1,
    /// The carry flag is clear.
    C0,
}

impl Condition {
    /// The value of the condition's two-bit field.
    pub open spec fn spec_code(self) -> u8 {
        match self {
            Condition::Z1 => 0,
            Condition::Z0 => 1,
            Condition::C1 => 2,
            Condition::C0 => 3,
        }
    }

    /// The value of the condition's two-bit field.
    #[verifier::when_used_as_spec(spec_code)]
    pub fn code(self) -> (c: u8)
        ensures
            c == self.spec_code(),
            c < 4,
    {
        match self {
            Condition::Z1 => 0,
            Condition::Z0 => 1,
            Condition::C1 => 2,
            Condition::C0 => 3,
        }
    }
}

} // verus!
