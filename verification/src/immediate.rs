//! Numeric operands: eight-bit immediates, instruction addresses and four-bit
//! offsets.

use vstd::prelude::*;

verus! {

/// An eight-bit value, written either signed (-128 to 127) or unsigned (0 to 255).
#[derive(Debug, Clone, Copy, PartialEq, Eq, Structural)]
pub struct Immediate(pub i16);

/// The address of an instruction, held as a word index (the byte address halved).
#[derive(Debug, Clone, Copy, PartialEq, Eq, Structural)]
pub struct Address(pub u16);

/// A signed four-bit displacement for loads and stores.
#[derive(Debug, Clone, Copy, PartialEq, Eq, Structural)]
pub struct Offset(pub i8);

/// The largest word index that an instruction can have.
pub const MAX_WORD_INDEX: u16 = 0x03ff;

impl Immediate {
    /// The value lies in the range that eight bits can hold, signed or unsigned.
    pub open spec fn wf(self) -> bool {
        -128 <= self.0 <= 255
    }

    /// The eight bits that stand for the value: the value itself where it is
    /// not negative, its two's complement otherwise.
    pub open spec fn spec_value(&self) -> u8 {
        (self.0 as int % 256) as u8
    }

    /// An immediate of the given value; `None` outside -128 to 255.
    pub fn new(value: i16) -> (r: Option<Self>)
        ensures
            r == (if -128 <= value <= 255 {
                Some(Immediate(value))
            } else {
                None
            }),
            r matches Some(i) ==> i.wf(),
    {
        if value < -128 || value > 255 {
            None
        } else {
            Some(Immediate(value))
        }
    }

    /// The eight bits that stand for the value.
    #[verifier::when_used_as_spec(spec_value)]
    pub fn value(&self) -> (v: u8)
        ensures
            v == self.spec_value(),
    {
        let v: i16 = self.0;
        if v >= 0 {
            (v % 256) as u8
        } else {
            let below: i16 = (-(v + 1)) % 256;
            (255 - below) as u8
        }
    }
}

impl Address {
    /// The word index fits the ten-bit address field.
    pub open spec fn wf(self) -> bool {
        self.0 <= MAX_WORD_INDEX
    }

    /// The address that a byte address stands for, if it is in range. The lowest
    /// bit of the byte address is dropped: every instruction is two bytes long.
    pub open spec fn spec_new(value: u16) -> Option<Address> {
        if value / 2 > MAX_WORD_INDEX {
            None
        } else {
            Some(Address((value / 2) as u16))
        }
    }

    /// The address for a byte address; `None` where the word index is above 1023.
    pub fn new(value: u16) -> (r: Option<Address>)
        ensures
            r == Address::spec_new(value),
            r matches Some(a) ==> a.wf(),
    {
        let word: u16 = value / 2;
        if word > MAX_WORD_INDEX {
            None
        } else {
            Some(Address(word))
        }
    }

    /// The word index.
    pub fn value(&self) -> (v: u16)
        ensures
            v == self.0,
    {
        self.0
    }
}

impl Offset {
    /// The displacement fits four signed bits.
    pub open spec fn wf(self) -> bool {
        -8 <= self.0 <= 7
    }

    /// The four bits that stand for the displacement, in two's complement.
    pub open spec fn spec_encode(&self) -> u8 {
        (self.0 as int % 16) as u8
    }

    /// An offset of the given value; `None` outside -8 to 7.
    pub fn new(value: i8) -> (r: Option<Self>)
        ensures
            r == (if -8 <= value <= 7 {
                Some(Offset(value))
            } else {
                None
            }),
            r matches Some(o) ==> o.wf(),
    {
        if value < -8 || value > 7 {
            None
        } else {
            Some(Offset(value))
        }
    }

    /// The displacement.
    pub fn value(&self) -> (v: i8)
        ensures
            v == self.0,
    {
        self.0
    }

    /// The four bits that stand for the displacement.
    #[verifier::when_used_as_spec(spec_encode)]
    pub fn encode(&self) -> (v: u8)
        ensures
            v == self.spec_encode(),
            v < 16,
    {
        let v: i8 = self.0;
        if v >= 0 {
            (v % 16) as u8
        } else {
            let below: i8 = (-(v + 1)) % 16;
            (15 - below) as u8
        }
    }
}

} // verus!
