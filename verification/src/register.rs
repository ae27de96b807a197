//! The sixteen general registers.

use vstd::prelude::*;

verus! {

/// One of the registers `r0` to `r15`.
#[derive(Debug, Clone, Copy, PartialEq, Eq, Structural)]
pub enum Register {
    R0,
    R1,
    R2,
    R3,
    R4,
    R5,
    R6,
    R7,
    R8,
    R9,
    R10,
    R11,
    R12,
    R13,
    R14,
    R15,
}

impl Register {
    /// The register's number, which is also the value of its four-bit field.
    pub open spec fn spec_index(self) -> u8 {
        match self {
            Register::R0 => 0,
            Register::R1 => 1,
            Register::R2 => 2,
            Register::R3 => 3,
            Register::R4 => 4,
            Register::R5 => 5,
            Register::R6 => 6,
            Register::R7 => 7,
            Register::R8 => 8,
            Register::R9 => 9,
            Register::R10 => 10,
            Register::R11 => 11,
            Register::R12 => 12,
            Register::R13 => 13,
            Register::R14 => 14,
            Register::R15 => 15,
        }
    }

    /// The register with the given number, if there is one.
    pub open spec fn spec_from_index(n: int) -> Option<Register> {
        if n == 0 {
            Some(Register::R0)
        } else if n == 1 {
            Some(Register::R1)
        } else if n == 2 {
            Some(Register::R2)
        } else if n == 3 {
            Some(Register::R3)
        } else if n == 4 {
            Some(Register::R4)
        } else if n == 5 {
            Some(Register::R5)
        } else if n == 6 {
            Some(Register::R6)
        } else if n == 7 {
            Some(Register::R7)
        } else if n == 8 {
            Some(Register::R8)
        } else if n == 9 {
            Some(Register::R9)
        } else if n == 10 {
            Some(Register::R10)
        } else if n == 11 {
            Some(Register::R11)
        } else if n == 12 {
            Some(Register::R12)
        } else if n == 13 {
            Some(Register::R13)
        } else if n == 14 {
            Some(Register::R14)
        } else if n == 15 {
            Some(Register::R15)
        } else {
            None
        }
    }

    /// The register's number.
    #[verifier::when_used_as_spec(spec_index)]
    pub fn index(self) -> (n: u8)
        ensures
            n == self.spec_index(),
            n < 16,
    {
        match self {
            Register::R0 => 0,
            Register::R1 => 1,
            Register::R2 => 2,
            Register::R3 => 3,
            Register::R4 => 4,
            Register::R5 => 5,
            Register::R6 => 6,
            Register::R7 => 7,
            Register::R8 => 8,
            Register::R9 => 9,
            Register::R10 => 10,
            Register::R11 => 11,
            Register::R12 => 12,
            Register::R13 => 13,
            Register::R14 => 14,
            Register::R15 => 15,
        }
    }

    /// The register with the given number; `None` for a number above 15.
    pub fn from_index(n: u8) -> (r: Option<Register>)
        ensures
            r == Register::spec_from_index(n as int),
            r.is_some() == (n < 16),
            r matches Some(reg) ==> reg.spec_index() == n,
    {
        match n {
            0 => Some(Register::R0),
            1 => Some(Register::R1),
            2 => Some(Register::R2),
            3 => Some(Register::R3),
            4 => Some(Register::R4),
            5 => Some(Register::R5),
            6 => Some(Register::R6),
            7 => Some(Register::R7),
            8 => Some(Register::R8),
            9 => Some(Register::R9),
            10 => Some(Register::R10),
            11 => Some(Register::R11),
            12 => Some(Register::R12),
            13 => Some(Register::R13),
            14 => Some(Register::R14),
            15 => Some(Register::R15),
            _ => None,
        }
    }
}

} // verus!
