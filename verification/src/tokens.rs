//! The tokens of the language: registers, conditions, numbers in their roles,
//! names in their roles, and what separates the operands of an instruction.
//!
//! Every function reads one token at a position of the text and gives what it
//! stands for with the position after it, or says what is wrong and where.

use crate::condition::Condition;
use crate::definition::{Definition, DefinitionView};
use crate::immediate::{Address, Immediate, Offset};
use crate::keywords::{
    condition_named, find_condition, find_opcode, find_port, find_register, is_keyword, names,
    opcode_named, port_named, register_named, reserved, text_is,
};
use crate::label::{Label, LabelView};
use crate::lexical::{
    belongs, byte_is, chars_of, comment, comment_sign, decimal, decimal_at, hexadecimal, hexadecimal_at,
    identifier, is_blank, is_printable, is_whitespace, name_end, number, number_at,
    run_end, scan_run, text_of, ByteClass,
};
use crate::opcode::Opcode;
use crate::port::Port;
use crate::register::Register;
use vstd::prelude::*;

verus! {

/// What is wrong with a piece of text.
#[derive(Debug, Clone, Copy, PartialEq, Eq, Structural)]
pub enum SyntaxKind {
    /// Neither a comma nor a blank, a comment or the end of the text follows.
    ExpectedSeparator,
    /// No register stands where one belongs.
    ExpectedRegister,
    /// The register's number is none of 0 to 15.
    RegisterOutOfRange,
    /// No condition stands where one belongs.
    ExpectedCondition,
    /// The condition is none that the language knows.
    UnknownCondition,
    /// No mnemonic stands where one belongs.
    ExpectedOpcode,
    /// The mnemonic is none that the language knows.
    UnknownOpcode,
    /// No number stands where one belongs, or one too large to be read.
    ExpectedNumber,
    /// The immediate lies outside -128 to 255.
    ImmediateOutOfRange,
    /// No address in hexadecimal notation stands where one belongs.
    ExpectedAddress,
    /// The address lies beyond the last instruction that can be addressed.
    AddressOutOfRange,
    /// The offset lies outside -8 to 7.
    OffsetOutOfRange,
    /// No `.` stands where a label belongs.
    ExpectedLabel,
    /// No name stands where one belongs.
    ExpectedName,
    /// The name is a reserved word.
    ReservedName,
    /// No blank stands where one belongs.
    ExpectedBlank,
    /// The word `define` does not stand where it belongs.
    ExpectedDefine,
    /// Something other than whitespace follows the name of a label.
    UnterminatedLabel,
    /// No character between quotes stands where one belongs.
    MalformedCharacter,
    /// The name is that of no port.
    UnknownPort,
}

/// What is wrong with a text, and the offset of the byte at which it shows.
#[derive(Debug, Clone, Copy, PartialEq, Eq, Structural)]
pub struct SyntaxError {
    pub offset: usize,
    pub kind: SyntaxKind,
}

/// The error of the given kind at the given offset.
pub open spec fn fault<T>(at: int, kind: SyntaxKind) -> Result<T, SyntaxError> {
    Err(SyntaxError { offset: at as usize, kind })
}

/// An exec result agrees with what the grammar gives.
pub open spec fn agrees<T>(r: Result<(T, usize), SyntaxError>, expected: Result<
    (T, int),
    SyntaxError,
>) -> bool {
    match r {
        Ok((value, end)) => expected == Ok::<(T, int), SyntaxError>((value, end as int)),
        Err(e) => expected == Err::<(T, int), SyntaxError>(e),
    }
}

/// An exec result agrees by its view with what the grammar gives.
pub open spec fn agrees_in_view<T: View>(r: Result<(T, usize), SyntaxError>, expected: Result<
    (T::V, int),
    SyntaxError,
>) -> bool {
    match r {
        Ok((value, end)) => expected == Ok::<(T::V, int), SyntaxError>((value@, end as int)),
        Err(e) => expected == Err::<(T::V, int), SyntaxError>(e),
    }
}

/// An exec result that is only a position agrees with what the grammar gives.
pub open spec fn position_agrees(r: Result<usize, SyntaxError>, expected: Result<
    int,
    SyntaxError,
>) -> bool {
    match r {
        Ok(end) => expected == Ok::<int, SyntaxError>(end as int),
        Err(e) => expected == Err::<int, SyntaxError>(e),
    }
}

/// The position after a result, or that of its error, lies between `at` and
/// the end of the text.
pub open spec fn advances<T>(r: Result<(T, usize), SyntaxError>, at: usize, len: nat) -> bool {
    match r {
        Ok((_, end)) => at <= end <= len,
        Err(e) => at <= e.offset <= len,
    }
}

/// What separates two operands: a comma and blanks after it, or blanks, or a
/// line comment, or the end of the text. Gives the position after it.
pub open spec fn next_token_at(s: Seq<u8>, at: int) -> Result<int, SyntaxError> {
    if byte_is(s, at, ',') {
        Ok(run_end(s, at + 1, ByteClass::Blank))
    } else if 0 <= at < s.len() && is_blank(s[at]) {
        Ok(run_end(s, at, ByteClass::Blank))
    } else if comment_sign(s, at) > 0 {
        Ok(run_end(s, at + comment_sign(s, at), ByteClass::LineRest))
    } else if at >= s.len() {
        Ok(at)
    } else {
        fault(at, SyntaxKind::ExpectedSeparator)
    }
}

/// Passes over what separates two operands at `at`.
pub fn next_token(input: &[u8], at: usize) -> (r: Result<usize, SyntaxError>)
    requires
        at <= input@.len(),
    ensures
        position_agrees(r, next_token_at(input@, at as int)),
        r matches Ok(end) ==> at <= end <= input@.len(),
        r matches Err(e) ==> at <= e.offset <= input@.len(),
{
    if at < input.len() && input[at] == (',' as u8) {
        Ok(scan_run(input, at + 1, ByteClass::Blank))
    } else if at < input.len() && (input[at] == (' ' as u8) || input[at] == ('\t' as u8)) {
        Ok(scan_run(input, at, ByteClass::Blank))
    } else if let Some(end) = comment(input, at) {
        Ok(end)
    } else if at >= input.len() {
        Ok(at)
    } else {
        Err(SyntaxError { offset: at, kind: SyntaxKind::ExpectedSeparator })
    }
}

/// A register: `r` or `R` and the register's number.
pub open spec fn register_at(s: Seq<u8>, at: int) -> Result<(Register, int), SyntaxError> {
    let end = run_end(s, at + 1, ByteClass::Digit);
    if !(byte_is(s, at, 'r') || byte_is(s, at, 'R')) || end <= at + 1 {
        fault(at, SyntaxKind::ExpectedRegister)
    } else {
        match register_named(s.subrange(at, end)) {
            Some(reg) => Ok((reg, end)),
            None => fault(at, SyntaxKind::RegisterOutOfRange),
        }
    }
}

/// Reads the register at `at`.
pub fn register(input: &[u8], at: usize) -> (r: Result<(Register, usize), SyntaxError>)
    requires
        at <= input@.len(),
    ensures
        agrees(r, register_at(input@, at as int)),
        advances(r, at, input@.len()),
{
    if at >= input.len() || !(input[at] == ('r' as u8) || input[at] == ('R' as u8)) {
        return Err(SyntaxError { offset: at, kind: SyntaxKind::ExpectedRegister });
    }
    let end = scan_run(input, at + 1, ByteClass::Digit);
    if end <= at + 1 {
        return Err(SyntaxError { offset: at, kind: SyntaxKind::ExpectedRegister });
    }
    match find_register(input, at, end) {
        Some(reg) => Ok((reg, end)),
        None => Err(SyntaxError { offset: at, kind: SyntaxKind::RegisterOutOfRange }),
    }
}

/// A mnemonic: a name that spells one.
pub open spec fn opcode_at(s: Seq<u8>, at: int) -> Result<(Opcode, int), SyntaxError> {
    match name_end(s, at) {
        None => fault(at, SyntaxKind::ExpectedOpcode),
        Some(end) => match opcode_named(s.subrange(at, end)) {
            Some(op) => Ok((op, end)),
            None => fault(at, SyntaxKind::UnknownOpcode),
        },
    }
}

/// Reads the mnemonic at `at`.
pub fn opcode(input: &[u8], at: usize) -> (r: Result<(Opcode, usize), SyntaxError>)
    requires
        at <= input@.len(),
    ensures
        agrees(r, opcode_at(input@, at as int)),
        advances(r, at, input@.len()),
        r matches Ok((op, end)) ==> !op.is_marker() && at < end,
{
    match identifier(input, at) {
        None => Err(SyntaxError { offset: at, kind: SyntaxKind::ExpectedOpcode }),
        Some(end) => match find_opcode(input, at, end) {
            Some(op) => Ok((op, end)),
            None => Err(SyntaxError { offset: at, kind: SyntaxKind::UnknownOpcode }),
        },
    }
}

/// A condition: a run of letters and comparison signs that spells one.
pub open spec fn condition_at(s: Seq<u8>, at: int) -> Result<(Condition, int), SyntaxError> {
    let end = run_end(s, at, ByteClass::ConditionSign);
    if end <= at {
        fault(at, SyntaxKind::ExpectedCondition)
    } else {
        match condition_named(s.subrange(at, end)) {
            Some(cond) => Ok((cond, end)),
            None => fault(at, SyntaxKind::UnknownCondition),
        }
    }
}

/// Reads the condition at `at`.
pub fn condition(input: &[u8], at: usize) -> (r: Result<(Condition, usize), SyntaxError>)
    requires
        at <= input@.len(),
    ensures
        agrees(r, condition_at(input@, at as int)),
        advances(r, at, input@.len()),
{
    let end = scan_run(input, at, ByteClass::ConditionSign);
    if end <= at {
        return Err(SyntaxError { offset: at, kind: SyntaxKind::ExpectedCondition });
    }
    match find_condition(input, at, end) {
        Some(cond) => Ok((cond, end)),
        None => Err(SyntaxError { offset: at, kind: SyntaxKind::UnknownCondition }),
    }
}

/// A port: a name that is one of a port.
pub open spec fn port_at(s: Seq<u8>, at: int) -> Result<(Port, int), SyntaxError> {
    match name_end(s, at) {
        None => fault(at, SyntaxKind::ExpectedName),
        Some(end) => match port_named(s.subrange(at, end)) {
            Some(port) => Ok((port, end)),
            None => fault(at, SyntaxKind::UnknownPort),
        },
    }
}

/// Reads the port at `at`.
pub fn port(input: &[u8], at: usize) -> (r: Result<(Port, usize), SyntaxError>)
    requires
        at <= input@.len(),
    ensures
        agrees(r, port_at(input@, at as int)),
        advances(r, at, input@.len()),
{
    match identifier(input, at) {
        None => Err(SyntaxError { offset: at, kind: SyntaxKind::ExpectedName }),
        Some(end) => match find_port(input, at, end) {
            Some(port) => Ok((port, end)),
            None => Err(SyntaxError { offset: at, kind: SyntaxKind::UnknownPort }),
        },
    }
}

/// A character: one printable character between two `"` or two `'`.
pub open spec fn character_at(s: Seq<u8>, at: int) -> Result<(char, int), SyntaxError> {
    if 0 <= at && at + 3 <= s.len() && is_printable(s[at + 1]) && ((s[at] == '"' as u8 && s[at
        + 2] == '"' as u8) || (s[at] == '\'' as u8 && s[at + 2] == '\'' as u8)) {
        Ok((s[at + 1] as char, at + 3))
    } else {
        fault(at, SyntaxKind::MalformedCharacter)
    }
}

/// Reads the character literal at `at`.
pub fn character(input: &[u8], at: usize) -> (r: Result<(char, usize), SyntaxError>)
    requires
        at <= input@.len(),
    ensures
        agrees(r, character_at(input@, at as int)),
        advances(r, at, input@.len()),
{
    if input.len() - at >= 3 {
        let open = input[at];
        let inner = input[at + 1];
        let close = input[at + 2];
        if inner >= 0x20 && inner <= 0x7e && ((open == ('"' as u8) && close == ('"' as u8)) || (
        open == ('\'' as u8) && close == ('\'' as u8))) {
            return Ok((inner as char, at + 3));
        }
    }
    Err(SyntaxError { offset: at, kind: SyntaxKind::MalformedCharacter })
}

/// Whether a sign stands at `at`, and whether it is a minus.
pub open spec fn sign_at(s: Seq<u8>, at: int) -> (bool, int) {
    if byte_is(s, at, '-') {
        (true, at + 1)
    } else if byte_is(s, at, '+') {
        (false, at + 1)
    } else {
        (false, at)
    }
}

/// Reads the sign at `at`, if one stands there.
fn sign(input: &[u8], at: usize) -> (r: (bool, usize))
    requires
        at <= input@.len(),
    ensures
        sign_at(input@, at as int) == (r.0, r.1 as int),
        at <= r.1 <= input@.len(),
{
    if at < input.len() && input[at] == ('-' as u8) {
        (true, at + 1)
    } else if at < input.len() && input[at] == ('+' as u8) {
        (false, at + 1)
    } else {
        (false, at)
    }
}

/// The number with the sign: negated where the sign is a minus.
pub open spec fn signed(negative: bool, value: int) -> int {
    if negative {
        -value
    } else {
        value
    }
}

/// An immediate: a number with an optional sign, between -128 and 255.
pub open spec fn immediate_at(s: Seq<u8>, at: int) -> Result<(Immediate, int), SyntaxError> {
    let (negative, start) = sign_at(s, at);
    match number_at(s, start, 0x7fff) {
        None => fault(start, SyntaxKind::ExpectedNumber),
        Some((value, end)) => if -128 <= signed(negative, value) <= 255 {
            Ok((Immediate(signed(negative, value) as i16), end))
        } else {
            fault(at, SyntaxKind::ImmediateOutOfRange)
        },
    }
}

/// Reads the immediate at `at`.
pub fn immediate(input: &[u8], at: usize) -> (r: Result<(Immediate, usize), SyntaxError>)
    requires
        at <= input@.len(),
    ensures
        agrees(r, immediate_at(input@, at as int)),
        advances(r, at, input@.len()),
{
    let (negative, start) = sign(input, at);
    match number(input, start, 0x7fff) {
        None => Err(SyntaxError { offset: start, kind: SyntaxKind::ExpectedNumber }),
        Some((value, end)) => {
            let value: i16 = if negative {
                -(value as i16)
            } else {
                value as i16
            };
            match Immediate::new(value) {
                Some(imm) => Ok((imm, end)),
                None => Err(SyntaxError { offset: at, kind: SyntaxKind::ImmediateOutOfRange }),
            }
        },
    }
}

/// An offset: a decimal number with an optional sign, between -8 and 7.
pub open spec fn offset_at(s: Seq<u8>, at: int) -> Result<(Offset, int), SyntaxError> {
    let (negative, start) = sign_at(s, at);
    match decimal_at(s, start, 0x7f) {
        None => fault(start, SyntaxKind::ExpectedNumber),
        Some((value, end)) => if -8 <= signed(negative, value) <= 7 {
            Ok((Offset(signed(negative, value) as i8), end))
        } else {
            fault(at, SyntaxKind::OffsetOutOfRange)
        },
    }
}

/// Reads the offset at `at`.
pub fn offset(input: &[u8], at: usize) -> (r: Result<(Offset, usize), SyntaxError>)
    requires
        at <= input@.len(),
    ensures
        agrees(r, offset_at(input@, at as int)),
        advances(r, at, input@.len()),
{
    let (negative, start) = sign(input, at);
    match decimal(input, start, 0x7f) {
        None => Err(SyntaxError { offset: start, kind: SyntaxKind::ExpectedNumber }),
        Some((value, end)) => {
            let value: i8 = if negative {
                -(value as i8)
            } else {
                value as i8
            };
            match Offset::new(value) {
                Some(off) => Ok((off, end)),
                None => Err(SyntaxError { offset: at, kind: SyntaxKind::OffsetOutOfRange }),
            }
        },
    }
}

/// An address: a hexadecimal number, the byte address of an instruction.
pub open spec fn address_at(s: Seq<u8>, at: int) -> Result<(Address, int), SyntaxError> {
    match hexadecimal_at(s, at, 0xffff) {
        None => fault(at, SyntaxKind::ExpectedAddress),
        Some((value, end)) => match Address::spec_new(value as u16) {
            Some(addr) => Ok((addr, end)),
            None => fault(at, SyntaxKind::AddressOutOfRange),
        },
    }
}

/// Reads the address at `at`.
pub fn address(input: &[u8], at: usize) -> (r: Result<(Address, usize), SyntaxError>)
    requires
        at <= input@.len(),
    ensures
        agrees(r, address_at(input@, at as int)),
        advances(r, at, input@.len()),
{
    match hexadecimal(input, at, 0xffff) {
        None => Err(SyntaxError { offset: at, kind: SyntaxKind::ExpectedAddress }),
        Some((value, end)) => match Address::new(value) {
            Some(addr) => Ok((addr, end)),
            None => Err(SyntaxError { offset: at, kind: SyntaxKind::AddressOutOfRange }),
        },
    }
}

/// A reference to a label: `.` and a name.
pub open spec fn label_usage_at(s: Seq<u8>, at: int) -> Result<(LabelView, int), SyntaxError> {
    if !byte_is(s, at, '.') {
        fault(at, SyntaxKind::ExpectedLabel)
    } else {
        match name_end(s, at + 1) {
            None => fault(at + 1, SyntaxKind::ExpectedName),
            Some(end) => Ok(
                (LabelView { name: chars_of(s.subrange(at + 1, end)), address: None }, end),
            ),
        }
    }
}

/// Reads the reference to a label at `at`.
pub fn label_usage(input: &[u8], at: usize) -> (r: Result<(Label, usize), SyntaxError>)
    requires
        at <= input@.len(),
    ensures
        agrees_in_view(r, label_usage_at(input@, at as int)),
        advances(r, at, input@.len()),
{
    if at >= input.len() || input[at] != ('.' as u8) {
        return Err(SyntaxError { offset: at, kind: SyntaxKind::ExpectedLabel });
    }
    match identifier(input, at + 1) {
        None => Err(SyntaxError { offset: at + 1, kind: SyntaxKind::ExpectedName }),
        Some(end) => Ok((Label::new(text_of(input, at + 1, end)), end)),
    }
}

/// The use of a constant: a name that is no reserved word.
pub open spec fn definition_at(s: Seq<u8>, at: int) -> Result<
    (DefinitionView, int),
    SyntaxError,
> {
    match name_end(s, at) {
        None => fault(at, SyntaxKind::ExpectedName),
        Some(end) => if is_keyword(s.subrange(at, end)) {
            fault(at, SyntaxKind::ReservedName)
        } else {
            Ok((DefinitionView { name: chars_of(s.subrange(at, end)), value: None }, end))
        },
    }
}

/// Reads the use of a constant at `at`.
pub fn definition(input: &[u8], at: usize) -> (r: Result<(Definition, usize), SyntaxError>)
    requires
        at <= input@.len(),
    ensures
        agrees_in_view(r, definition_at(input@, at as int)),
        advances(r, at, input@.len()),
{
    match identifier(input, at) {
        None => Err(SyntaxError { offset: at, kind: SyntaxKind::ExpectedName }),
        Some(end) => if reserved(input, at, end) {
            Err(SyntaxError { offset: at, kind: SyntaxKind::ReservedName })
        } else {
            Ok((Definition { name: text_of(input, at, end), value: None }, end))
        },
    }
}

/// The declaration of a constant: the word `define`, blanks, a name that is no
/// reserved word, blanks, and a number with an optional sign between -128 and
/// 255.
pub open spec fn define_at(s: Seq<u8>, at: int) -> Result<(DefinitionView, int), SyntaxError> {
    let word_end = at + 6;
    let name_start = run_end(s, word_end, ByteClass::Blank);
    if !(0 <= at && word_end <= s.len() && names(s.subrange(at, word_end), "define")) {
        fault(at, SyntaxKind::ExpectedDefine)
    } else if name_start <= word_end {
        fault(word_end, SyntaxKind::ExpectedBlank)
    } else {
        match name_end(s, name_start) {
            None => fault(name_start, SyntaxKind::ExpectedName),
            Some(end) => {
                let value_start = run_end(s, end, ByteClass::Blank);
                let (negative, start) = sign_at(s, value_start);
                if value_start <= end {
                    fault(end, SyntaxKind::ExpectedBlank)
                } else {
                    match number_at(s, start, 0x7fff) {
                        None => fault(start, SyntaxKind::ExpectedNumber),
                        Some((value, after)) => if is_keyword(s.subrange(name_start, end)) {
                            fault(name_start, SyntaxKind::ReservedName)
                        } else if !(-128 <= signed(negative, value) <= 255) {
                            fault(value_start, SyntaxKind::ImmediateOutOfRange)
                        } else {
                            Ok(
                                (
                                    DefinitionView {
                                        name: chars_of(s.subrange(name_start, end)),
                                        value: Some(signed(negative, value) as i16),
                                    },
                                    after,
                                ),
                            )
                        },
                    }
                }
            },
        }
    }
}

/// Reads the declaration of a constant at `at`.
pub fn define(input: &[u8], at: usize) -> (r: Result<(Definition, usize), SyntaxError>)
    requires
        at <= input@.len(),
    ensures
        agrees_in_view(r, define_at(input@, at as int)),
        advances(r, at, input@.len()),
        r matches Ok((_, end)) ==> at < end,
{
    if input.len() - at < 6 || !text_is(input, at, at + 6, "define") {
        return Err(SyntaxError { offset: at, kind: SyntaxKind::ExpectedDefine });
    }
    let word_end = at + 6;
    let name_start = scan_run(input, word_end, ByteClass::Blank);
    if name_start <= word_end {
        return Err(SyntaxError { offset: word_end, kind: SyntaxKind::ExpectedBlank });
    }
    let end = match identifier(input, name_start) {
        None => {
            return Err(SyntaxError { offset: name_start, kind: SyntaxKind::ExpectedName });
        },
        Some(end) => end,
    };
    let value_start = scan_run(input, end, ByteClass::Blank);
    if value_start <= end {
        return Err(SyntaxError { offset: end, kind: SyntaxKind::ExpectedBlank });
    }
    let (negative, start) = sign(input, value_start);
    let (value, after) = match number(input, start, 0x7fff) {
        None => {
            return Err(SyntaxError { offset: start, kind: SyntaxKind::ExpectedNumber });
        },
        Some(found) => found,
    };
    if reserved(input, name_start, end) {
        return Err(SyntaxError { offset: name_start, kind: SyntaxKind::ReservedName });
    }
    let value: i16 = if negative {
        -(value as i16)
    } else {
        value as i16
    };
    if value < -128 || value > 255 {
        return Err(SyntaxError { offset: value_start, kind: SyntaxKind::ImmediateOutOfRange });
    }
    Ok((Definition { name: text_of(input, name_start, end), value: Some(value) }, after))
}

/// The declaration of a label: `.` and a name, with whitespace or the end of
/// the text after it. Gives the name and the position after the whitespace.
pub open spec fn label_define_at(s: Seq<u8>, at: int) -> Result<(Seq<char>, int), SyntaxError> {
    if !byte_is(s, at, '.') {
        fault(at, SyntaxKind::ExpectedLabel)
    } else {
        match name_end(s, at + 1) {
            None => fault(at + 1, SyntaxKind::ExpectedName),
            Some(end) => if end < s.len() && !is_whitespace(s[end]) {
                fault(end, SyntaxKind::UnterminatedLabel)
            } else {
                Ok((chars_of(s.subrange(at + 1, end)), run_end(s, end, ByteClass::Whitespace)))
            },
        }
    }
}

/// Reads the declaration of a label at `at`.
pub fn label_define(input: &[u8], at: usize) -> (r: Result<(String, usize), SyntaxError>)
    requires
        at <= input@.len(),
    ensures
        agrees_in_view(r, label_define_at(input@, at as int)),
        advances(r, at, input@.len()),
        r matches Ok((_, end)) ==> at < end,
{
    if at >= input.len() || input[at] != ('.' as u8) {
        return Err(SyntaxError { offset: at, kind: SyntaxKind::ExpectedLabel });
    }
    match identifier(input, at + 1) {
        None => Err(SyntaxError { offset: at + 1, kind: SyntaxKind::ExpectedName }),
        Some(end) => {
            if end < input.len() && !belongs(ByteClass::Whitespace, input[end]) {
                Err(SyntaxError { offset: end, kind: SyntaxKind::UnterminatedLabel })
            } else {
                Ok((text_of(input, at + 1, end), scan_run(input, end, ByteClass::Whitespace)))
            }
        },
    }
}

/// A number that is written where an immediate belongs is taken exactly where
/// it lies between -128 and 255; any other number is refused as out of range.
pub proof fn lemma_immediate_range(s: Seq<u8>, at: int)
    requires
        number_at(s, sign_at(s, at).1, 0x7fff) is Some,
    ensures
        ({
            let (negative, start) = sign_at(s, at);
            let value = signed(negative, number_at(s, start, 0x7fff)->Some_0.0);
            &&& immediate_at(s, at) is Ok <==> -128 <= value <= 255
            &&& immediate_at(s, at) matches Ok((imm, _)) ==> imm.0 == value && imm.wf()
            &&& !(-128 <= value <= 255) ==> immediate_at(s, at) == fault::<(Immediate, int)>(
                at,
                SyntaxKind::ImmediateOutOfRange,
            )
        }),
{
}

/// A number that is written where an offset belongs is taken exactly where it
/// lies between -8 and 7; any other number is refused as out of range.
pub proof fn lemma_offset_range(s: Seq<u8>, at: int)
    requires
        decimal_at(s, sign_at(s, at).1, 0x7f) is Some,
    ensures
        ({
            let (negative, start) = sign_at(s, at);
            let value = signed(negative, decimal_at(s, start, 0x7f)->Some_0.0);
            &&& offset_at(s, at) is Ok <==> -8 <= value <= 7
            &&& offset_at(s, at) matches Ok((off, _)) ==> off.0 == value && off.wf()
            &&& !(-8 <= value <= 7) ==> offset_at(s, at) == fault::<(Offset, int)>(
                at,
                SyntaxKind::OffsetOutOfRange,
            )
        }),
{
}

/// An address that is written in a program is taken exactly where its word
/// index, the half of it, is no more than 1023; any other address is refused
/// as out of range.
pub proof fn lemma_address_range(s: Seq<u8>, at: int)
    requires
        hexadecimal_at(s, at, 0xffff) is Some,
        0 <= hexadecimal_at(s, at, 0xffff)->Some_0.0,
    ensures
        ({
            let value = hexadecimal_at(s, at, 0xffff)->Some_0.0;
            &&& address_at(s, at) is Ok <==> value / 2 <= 1023
            &&& address_at(s, at) matches Ok((addr, _)) ==> addr.0 == value / 2 && addr.wf()
            &&& value / 2 > 1023 ==> address_at(s, at) == fault::<(Address, int)>(
                at,
                SyntaxKind::AddressOutOfRange,
            )
        }),
{
}
} // verus!
