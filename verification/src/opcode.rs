//! Operation codes: the sixteen machine operations, the macro mnemonics that
//! expand to them, and the two markers for labels and definitions.

use vstd::prelude::*;

verus! {

/// A mnemonic of the instruction set. The first sixteen variants are the real
/// machine operations, the next seven are macros, the last two are markers that
/// occupy no space in the program.
#[allow(non_camel_case_types)]
#[derive(Debug, Clone, Copy, PartialEq, Eq, Structural)]
pub enum Opcode {
    NOP,
    HLT,
    ADD,
    SUB,
    NOR,
    AND,
    XOR,
    RSH,
    LDI,
    ADI,
    JMP,
    BRH,
    CAL,
    RET,
    LOD,
    STR,
    CMP,
    MOV,
    LSH,
    INC,
    DEC,
    NOT,
    NEG,
    _Label,
    _Definition,
}

impl Opcode {
    /// The position of the mnemonic in the instruction set's table. For a real
    /// operation this is the value of its four-bit field.
    pub open spec fn spec_code(self) -> u16 {
        match self {
            Opcode::NOP => 0,
            Opcode::HLT => 1,
            Opcode::ADD => 2,
            Opcode::SUB => 3,
            Opcode::NOR => 4,
            Opcode::AND => 5,
            Opcode::XOR => 6,
            Opcode::RSH => 7,
            Opcode::LDI => 8,
            Opcode::ADI => 9,
            Opcode::JMP => 10,
            Opcode::BRH => 11,
            Opcode::CAL => 12,
            Opcode::RET => 13,
            Opcode::LOD => 14,
            Opcode::STR => 15,
            Opcode::CMP => 16,
            Opcode::MOV => 17,
            Opcode::LSH => 18,
            Opcode::INC => 19,
            Opcode::DEC => 20,
            Opcode::NOT => 21,
            Opcode::NEG => 22,
            Opcode::_Label => 23,
            Opcode::_Definition => 24,
        }
    }

    /// Whether the mnemonic is one of the sixteen machine operations.
    pub open spec fn is_real(self) -> bool {
        self.spec_code() < 16
    }

    /// Whether the mnemonic is a macro, which has no encoding of its own.
    pub open spec fn is_macro(self) -> bool {
        16 <= self.spec_code() < 23
    }

    /// Whether the mnemonic marks a label or a definition.
    pub open spec fn is_marker(self) -> bool {
        self == Opcode::_Label || self == Opcode::_Definition
    }

    /// Whether an instruction with this mnemonic occupies a word of the program.
    pub open spec fn takes_space(self) -> bool {
        !self.is_marker()
    }

    /// The position of the mnemonic in the instruction set's table.
    #[verifier::when_used_as_spec(spec_code)]
    pub fn code(self) -> (c: u16)
        ensures
            c == self.spec_code(),
            c < 25,
    {
        match self {
            Opcode::NOP => 0,
            Opcode::HLT => 1,
            Opcode::ADD => 2,
            Opcode::SUB => 3,
            Opcode::NOR => 4,
            Opcode::AND => 5,
            Opcode::XOR => 6,
            Opcode::RSH => 7,
            Opcode::LDI => 8,
            Opcode::ADI => 9,
            Opcode::JMP => 10,
            Opcode::BRH => 11,
            Opcode::CAL => 12,
            Opcode::RET => 13,
            Opcode::LOD => 14,
            Opcode::STR => 15,
            Opcode::CMP => 16,
            Opcode::MOV => 17,
            Opcode::LSH => 18,
            Opcode::INC => 19,
            Opcode::DEC => 20,
            Opcode::NOT => 21,
            Opcode::NEG => 22,
            Opcode::_Label => 23,
            Opcode::_Definition => 24,
        }
    }

    /// Whether an instruction with this mnemonic is a marker.
    pub fn is_marker_code(self) -> (b: bool)
        ensures
            b == self.is_marker(),
    {
        self == Opcode::_Label || self == Opcode::_Definition
    }
}

} // verus!
