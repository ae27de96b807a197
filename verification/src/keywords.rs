//! The reserved words of the language: mnemonics, register names, condition
//! aliases and port names. All of them are matched without regard to case.

use crate::condition::Condition;
use crate::opcode::Opcode;
use crate::port::Port;
use crate::register::Register;
use vstd::prelude::*;
use vstd::string::is_ascii;
use vstd::string::StringSliceAdditionalSpecFns;

verus! {

/// The lower-case form of an ASCII letter; any other byte is left as it is.
pub open spec fn lower(b: u8) -> u8 {
    if ('A' as u8) <= b && b <= ('Z' as u8) {
        (b + 32) as u8
    } else {
        b
    }
}

/// The characters of a text, letters in lower case.
pub open spec fn lower_text(t: Seq<u8>) -> Seq<char> {
    Seq::new(t.len(), |i: int| lower(t[i]) as char)
}

/// The text spells the word, letters compared without regard to case.
pub open spec fn names(t: Seq<u8>, word: &str) -> bool {
    is_ascii(word) && lower_text(t) == word@
}

/// The mnemonic that the text spells. The two markers have no mnemonic.
pub open spec fn opcode_named(t: Seq<u8>) -> Option<Opcode> {
    if names(t, "nop") {
        Some(Opcode::NOP)
    } else if names(t, "hlt") {
        Some(Opcode::HLT)
    } else if names(t, "add") {
        Some(Opcode::ADD)
    } else if names(t, "sub") {
        Some(Opcode::SUB)
    } else if names(t, "nor") {
        Some(Opcode::NOR)
    } else if names(t, "and") {
        Some(Opcode::AND)
    } else if names(t, "xor") {
        Some(Opcode::XOR)
    } else if names(t, "rsh") {
        Some(Opcode::RSH)
    } else if names(t, "ldi") {
        Some(Opcode::LDI)
    } else if names(t, "adi") {
        Some(Opcode::ADI)
    } else if names(t, "jmp") {
        Some(Opcode::JMP)
    } else if names(t, "brh") {
        Some(Opcode::BRH)
    } else if names(t, "cal") {
        Some(Opcode::CAL)
    } else if names(t, "ret") {
        Some(Opcode::RET)
    } else if names(t, "lod") {
        Some(Opcode::LOD)
    } else if names(t, "str") {
        Some(Opcode::STR)
    } else if names(t, "cmp") {
        Some(Opcode::CMP)
    } else if names(t, "mov") {
        Some(Opcode::MOV)
    } else if names(t, "lsh") {
        Some(Opcode::LSH)
    } else if names(t, "inc") {
        Some(Opcode::INC)
    } else if names(t, "dec") {
        Some(Opcode::DEC)
    } else if names(t, "not") {
        Some(Opcode::NOT)
    } else if names(t, "neg") {
        Some(Opcode::NEG)
    } else {
        None
    }
}

/// The register that the text names: `r` and the register's number.
pub open spec fn register_named(t: Seq<u8>) -> Option<Register> {
    if names(t, "r0") {
        Some(Register::R0)
    } else if names(t, "r1") {
        Some(Register::R1)
    } else if names(t, "r2") {
        Some(Register::R2)
    } else if names(t, "r3") {
        Some(Register::R3)
    } else if names(t, "r4") {
        Some(Register::R4)
    } else if names(t, "r5") {
        Some(Register::R5)
    } else if names(t, "r6") {
        Some(Register::R6)
    } else if names(t, "r7") {
        Some(Register::R7)
    } else if names(t, "r8") {
        Some(Register::R8)
    } else if names(t, "r9") {
        Some(Register::R9)
    } else if names(t, "r10") {
        Some(Register::R10)
    } else if names(t, "r11") {
        Some(Register::R11)
    } else if names(t, "r12") {
        Some(Register::R12)
    } else if names(t, "r13") {
        Some(Register::R13)
    } else if names(t, "r14") {
        Some(Register::R14)
    } else if names(t, "r15") {
        Some(Register::R15)
    } else {
        None
    }
}

/// The condition that the text names, by any of its aliases.
pub open spec fn condition_named(t: Seq<u8>) -> Option<Condition> {
    if names(t, "zs") {
        Some(Condition::Z1)
    } else if names(t, "eq") {
        Some(Condition::Z1)
    } else if names(t, "=") {
        Some(Condition::Z1)
    } else if names(t, "z") {
        Some(Condition::Z1)
    } else if names(t, "zero") {
        Some(Condition::Z1)
    } else if names(t, "zc") {
        Some(Condition::Z0)
    } else if names(t, "ne") {
        Some(Condition::Z0)
    } else if names(t, "!=") {
        Some(Condition::Z0)
    } else if names(t, "nz") {
        Some(Condition::Z0)
    } else if names(t, "notzero") {
        Some(Condition::Z0)
    } else if names(t, "cs") {
        Some(Condition::C1)
    } else if names(t, "ge") {
        Some(Condition::C1)
    } else if names(t, ">=") {
        Some(Condition::C1)
    } else if names(t, "c") {
        Some(Condition::C1)
    } else if names(t, "carry") {
        Some(Condition::C1)
    } else if names(t, "cc") {
        Some(Condition::C0)
    } else if names(t, "lt") {
        Some(Condition::C0)
    } else if names(t, "<") {
        Some(Condition::C0)
    } else if names(t, "nc") {
        Some(Condition::C0)
    } else if names(t, "notcarry") {
        Some(Condition::C0)
    } else {
        None
    }
}

/// The port that the text names.
pub open spec fn port_named(t: Seq<u8>) -> Option<Port> {
    if names(t, "pixel_x") {
        Some(Port::PixelX)
    } else if names(t, "pixel_y") {
        Some(Port::PixelY)
    } else if names(t, "draw_pixel") {
        Some(Port::DrawPixel)
    } else if names(t, "clear_pixel") {
        Some(Port::ClearPixel)
    } else if names(t, "load_pixel") {
        Some(Port::LoadPixel)
    } else if names(t, "buffer_screen") {
        Some(Port::BufferScreen)
    } else if names(t, "clear_screen_buffer") {
        Some(Port::ClearScreenBuffer)
    } else if names(t, "write_char") {
        Some(Port::WriteChar)
    } else if names(t, "buffer_chars") {
        Some(Port::BufferChars)
    } else if names(t, "clear_chars_buffer") {
        Some(Port::ClearCharsBuffer)
    } else if names(t, "show_number") {
        Some(Port::ShowNumber)
    } else if names(t, "clear_number") {
        Some(Port::ClearNumber)
    } else if names(t, "signed_mode") {
        Some(Port::SignedMode)
    } else if names(t, "unsigned_mode") {
        Some(Port::UnsignedMode)
    } else if names(t, "rng") {
        Some(Port::RNG)
    } else if names(t, "controller_input") {
        Some(Port::ControllerInput)
    } else {
        None
    }
}

/// The text is a reserved word, which no definition may take as its name.
pub open spec fn is_keyword(t: Seq<u8>) -> bool {
    names(t, "define") || opcode_named(t).is_some() || register_named(t).is_some()
        || condition_named(t).is_some() || port_named(t).is_some()
}

/// The lower-case form of an ASCII letter; any other byte as it is.
pub fn to_lower(b: u8) -> (r: u8)
    ensures
        r == lower(b),
{
    if b >= ('A' as u8) && b <= ('Z' as u8) {
        b + 32
    } else {
        b
    }
}

/// Whether the bytes from `from` up to `to` spell the word.
pub fn text_is(input: &[u8], from: usize, to: usize, word: &str) -> (r: bool)
    requires
        from <= to <= input@.len(),
    ensures
        r == names(input@.subrange(from as int, to as int), word),
{
    if !word.is_ascii() {
        return false;
    }
    let w = word.as_bytes();
    proof {
        vstd::string::is_ascii_spec_bytes(word);
    }
    if w.len() != to - from {
        return false;
    }
    let mut i: usize = 0;
    while i < w.len()
        invariant
            from <= to <= input@.len(),
            w.len() == to - from,
            w@ == word.spec_bytes(),
            is_ascii(word),
            word.spec_bytes() =~= Seq::new(word@.len(), |k: int| word@.index(k) as u8),
            i <= w.len(),
            forall|k: int| 0 <= k < i ==> lower(input@[from + k]) as char == word@[k],
        decreases w.len() - i,
    {
        let b = to_lower(input[from + i]);
        if b != w[i] {
            let ghost k = i as int;
            assert(lower_text(input@.subrange(from as int, to as int))[k] != word@[k]);
            return false;
        }
        i += 1;
    }
    assert(lower_text(input@.subrange(from as int, to as int)) =~= word@);
    true
}

/// The mnemonic spelled by the bytes from `from` up to `to`.
pub fn find_opcode(input: &[u8], from: usize, to: usize) -> (r: Option<Opcode>)
    requires
        from <= to <= input@.len(),
    ensures
        r == opcode_named(input@.subrange(from as int, to as int)),
        r matches Some(op) ==> !op.is_marker(),
{
    if text_is(input, from, to, "nop") {
        Some(Opcode::NOP)
    } else if text_is(input, from, to, "hlt") {
        Some(Opcode::HLT)
    } else if text_is(input, from, to, "add") {
        Some(Opcode::ADD)
    } else if text_is(input, from, to, "sub") {
        Some(Opcode::SUB)
    } else if text_is(input, from, to, "nor") {
        Some(Opcode::NOR)
    } else if text_is(input, from, to, "and") {
        Some(Opcode::AND)
    } else if text_is(input, from, to, "xor") {
        Some(Opcode::XOR)
    } else if text_is(input, from, to, "rsh") {
        Some(Opcode::RSH)
    } else if text_is(input, from, to, "ldi") {
        Some(Opcode::LDI)
    } else if text_is(input, from, to, "adi") {
        Some(Opcode::ADI)
    } else if text_is(input, from, to, "jmp") {
        Some(Opcode::JMP)
    } else if text_is(input, from, to, "brh") {
        Some(Opcode::BRH)
    } else if text_is(input, from, to, "cal") {
        Some(Opcode::CAL)
    } else if text_is(input, from, to, "ret") {
        Some(Opcode::RET)
    } else if text_is(input, from, to, "lod") {
        Some(Opcode::LOD)
    } else if text_is(input, from, to, "str") {
        Some(Opcode::STR)
    } else if text_is(input, from, to, "cmp") {
        Some(Opcode::CMP)
    } else if text_is(input, from, to, "mov") {
        Some(Opcode::MOV)
    } else if text_is(input, from, to, "lsh") {
        Some(Opcode::LSH)
    } else if text_is(input, from, to, "inc") {
        Some(Opcode::INC)
    } else if text_is(input, from, to, "dec") {
        Some(Opcode::DEC)
    } else if text_is(input, from, to, "not") {
        Some(Opcode::NOT)
    } else if text_is(input, from, to, "neg") {
        Some(Opcode::NEG)
    } else {
        None
    }
}

/// The register named by the bytes from `from` up to `to`.
pub fn find_register(input: &[u8], from: usize, to: usize) -> (r: Option<Register>)
    requires
        from <= to <= input@.len(),
    ensures
        r == register_named(input@.subrange(from as int, to as int)),
{
    if text_is(input, from, to, "r0") {
        Some(Register::R0)
    } else if text_is(input, from, to, "r1") {
        Some(Register::R1)
    } else if text_is(input, from, to, "r2") {
        Some(Register::R2)
    } else if text_is(input, from, to, "r3") {
        Some(Register::R3)
    } else if text_is(input, from, to, "r4") {
        Some(Register::R4)
    } else if text_is(input, from, to, "r5") {
        Some(Register::R5)
    } else if text_is(input, from, to, "r6") {
        Some(Register::R6)
    } else if text_is(input, from, to, "r7") {
        Some(Register::R7)
    } else if text_is(input, from, to, "r8") {
        Some(Register::R8)
    } else if text_is(input, from, to, "r9") {
        Some(Register::R9)
    } else if text_is(input, from, to, "r10") {
        Some(Register::R10)
    } else if text_is(input, from, to, "r11") {
        Some(Register::R11)
    } else if text_is(input, from, to, "r12") {
        Some(Register::R12)
    } else if text_is(input, from, to, "r13") {
        Some(Register::R13)
    } else if text_is(input, from, to, "r14") {
        Some(Register::R14)
    } else if text_is(input, from, to, "r15") {
        Some(Register::R15)
    } else {
        None
    }
}

/// The condition named by the bytes from `from` up to `to`.
pub fn find_condition(input: &[u8], from: usize, to: usize) -> (r: Option<Condition>)
    requires
        from <= to <= input@.len(),
    ensures
        r == condition_named(input@.subrange(from as int, to as int)),
{
    if text_is(input, from, to, "zs") {
        Some(Condition::Z1)
    } else if text_is(input, from, to, "eq") {
        Some(Condition::Z1)
    } else if text_is(input, from, to, "=") {
        Some(Condition::Z1)
    } else if text_is(input, from, to, "z") {
        Some(Condition::Z1)
    } else if text_is(input, from, to, "zero") {
        Some(Condition::Z1)
    } else if text_is(input, from, to, "zc") {
        Some(Condition::Z0)
    } else if text_is(input, from, to, "ne") {
        Some(Condition::Z0)
    } else if text_is(input, from, to, "!=") {
        Some(Condition::Z0)
    } else if text_is(input, from, to, "nz") {
        Some(Condition::Z0)
    } else if text_is(input, from, to, "notzero") {
        Some(Condition::Z0)
    } else if text_is(input, from, to, "cs") {
        Some(Condition::C1)
    } else if text_is(input, from, to, "ge") {
        Some(Condition::C1)
    } else if text_is(input, from, to, ">=") {
        Some(Condition::C1)
    } else if text_is(input, from, to, "c") {
        Some(Condition::C1)
    } else if text_is(input, from, to, "carry") {
        Some(Condition::C1)
    } else if text_is(input, from, to, "cc") {
        Some(Condition::C0)
    } else if text_is(input, from, to, "lt") {
        Some(Condition::C0)
    } else if text_is(input, from, to, "<") {
        Some(Condition::C0)
    } else if text_is(input, from, to, "nc") {
        Some(Condition::C0)
    } else if text_is(input, from, to, "notcarry") {
        Some(Condition::C0)
    } else {
        None
    }
}

/// The port named by the bytes from `from` up to `to`.
pub fn find_port(input: &[u8], from: usize, to: usize) -> (r: Option<Port>)
    requires
        from <= to <= input@.len(),
    ensures
        r == port_named(input@.subrange(from as int, to as int)),
{
    if text_is(input, from, to, "pixel_x") {
        Some(Port::PixelX)
    } else if text_is(input, from, to, "pixel_y") {
        Some(Port::PixelY)
    } else if text_is(input, from, to, "draw_pixel") {
        Some(Port::DrawPixel)
    } else if text_is(input, from, to, "clear_pixel") {
        Some(Port::ClearPixel)
    } else if text_is(input, from, to, "load_pixel") {
        Some(Port::LoadPixel)
    } else if text_is(input, from, to, "buffer_screen") {
        Some(Port::BufferScreen)
    } else if text_is(input, from, to, "clear_screen_buffer") {
        Some(Port::ClearScreenBuffer)
    } else if text_is(input, from, to, "write_char") {
        Some(Port::WriteChar)
    } else if text_is(input, from, to, "buffer_chars") {
        Some(Port::BufferChars)
    } else if text_is(input, from, to, "clear_chars_buffer") {
        Some(Port::ClearCharsBuffer)
    } else if text_is(input, from, to, "show_number") {
        Some(Port::ShowNumber)
    } else if text_is(input, from, to, "clear_number") {
        Some(Port::ClearNumber)
    } else if text_is(input, from, to, "signed_mode") {
        Some(Port::SignedMode)
    } else if text_is(input, from, to, "unsigned_mode") {
        Some(Port::UnsignedMode)
    } else if text_is(input, from, to, "rng") {
        Some(Port::RNG)
    } else if text_is(input, from, to, "controller_input") {
        Some(Port::ControllerInput)
    } else {
        None
    }
}

/// Whether the bytes from `from` up to `to` spell a reserved word.
pub fn reserved(input: &[u8], from: usize, to: usize) -> (r: bool)
    requires
        from <= to <= input@.len(),
    ensures
        r == is_keyword(input@.subrange(from as int, to as int)),
{
    text_is(input, from, to, "define") || find_opcode(input, from, to).is_some() || find_register(
        input,
        from,
        to,
    ).is_some() || find_condition(input, from, to).is_some() || find_port(
        input,
        from,
        to,
    ).is_some()
}

} // verus!
