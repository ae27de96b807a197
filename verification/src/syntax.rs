//! The forms of the language: what an instruction of each kind looks like, and
//! the declarations of labels and constants.
//!
//! An instruction is a mnemonic and its operands, each operand after a
//! separator. Comments and whitespace after the last operand are passed over.

use crate::instruction::{Instruction, InstructionView};
use crate::lexical::{byte_is, is_digit, run_end, scan_run, skip, skipped, ByteClass};
use crate::opcode::Opcode;
use crate::operand::{Operand, OperandView};
use crate::register::Register;
use crate::tokens::{
    address, address_at, advances, agrees, agrees_in_view, character, character_at, condition,
    condition_at, define, define_at, definition, definition_at, fault, immediate, immediate_at,
    label_define, label_define_at, label_usage, label_usage_at, next_token, next_token_at,
    offset, offset_at, opcode, opcode_at, port, port_at, register, register_at, SyntaxError,
    SyntaxKind,
};
use vstd::prelude::*;

verus! {

/// A number begins at `at`: a sign or a digit stands there.
pub open spec fn starts_number(s: Seq<u8>, at: int) -> bool {
    byte_is(s, at, '+') || byte_is(s, at, '-') || (0 <= at < s.len() && is_digit(s[at]))
}

/// The third operand of a load or store: an offset where a number begins, the
/// use of a constant otherwise.
pub open spec fn operand_offset_at(s: Seq<u8>, at: int) -> Result<
    (OperandView, int),
    SyntaxError,
> {
    if starts_number(s, at) {
        match offset_at(s, at) {
            Ok((off, end)) => Ok((OperandView::Offset(off), end)),
            Err(e) => Err(e),
        }
    } else {
        match definition_at(s, at) {
            Ok((def, end)) => Ok((OperandView::Def(def), end)),
            Err(e) => Err(e),
        }
    }
}

/// An operand that stands for eight bits: an immediate where a number begins,
/// a character where a quote stands, else a port or the use of a constant.
pub open spec fn operand_immediate_at(s: Seq<u8>, at: int) -> Result<
    (OperandView, int),
    SyntaxError,
> {
    if starts_number(s, at) {
        match immediate_at(s, at) {
            Ok((imm, end)) => Ok((OperandView::Imm(imm), end)),
            Err(e) => Err(e),
        }
    } else if byte_is(s, at, '"') || byte_is(s, at, '\'') {
        match character_at(s, at) {
            Ok((ch, end)) => Ok((OperandView::Char(ch), end)),
            Err(e) => Err(e),
        }
    } else {
        match port_at(s, at) {
            Ok((port, end)) => Ok((OperandView::Port(port), end)),
            Err(_) => match definition_at(s, at) {
                Ok((def, end)) => Ok((OperandView::Def(def), end)),
                Err(e) => Err(e),
            },
        }
    }
}

/// The target of a jump, call or branch: a reference to a label where a `.`
/// stands, an address otherwise.
pub open spec fn operand_address_at(s: Seq<u8>, at: int) -> Result<
    (OperandView, int),
    SyntaxError,
> {
    if byte_is(s, at, '.') {
        match label_usage_at(s, at) {
            Ok((label, end)) => Ok((OperandView::Label(label), end)),
            Err(e) => Err(e),
        }
    } else {
        match address_at(s, at) {
            Ok((addr, end)) => Ok((OperandView::Addr(addr), end)),
            Err(e) => Err(e),
        }
    }
}

/// A separator and a register after it.
pub open spec fn register_after(s: Seq<u8>, at: int) -> Result<(Register, int), SyntaxError> {
    match next_token_at(s, at) {
        Ok(start) => register_at(s, start),
        Err(e) => Err(e),
    }
}

/// An instruction without operands.
pub open spec fn no_operands_at(s: Seq<u8>, at: int, op: Opcode) -> Result<
    (InstructionView, int),
    SyntaxError,
> {
    Ok((InstructionView::fresh(op, Seq::empty()), skipped(s, at)))
}

/// An instruction on one register.
pub open spec fn one_operand_at(s: Seq<u8>, at: int, op: Opcode) -> Result<
    (InstructionView, int),
    SyntaxError,
> {
    match register_after(s, at) {
        Err(e) => Err(e),
        Ok((a, end)) => Ok(
            (InstructionView::fresh(op, seq![OperandView::Reg(a)]), skipped(s, end)),
        ),
    }
}

/// An instruction on two registers.
pub open spec fn two_operands_at(s: Seq<u8>, at: int, op: Opcode) -> Result<
    (InstructionView, int),
    SyntaxError,
> {
    match register_after(s, at) {
        Err(e) => Err(e),
        Ok((a, first_end)) => match register_after(s, first_end) {
            Err(e) => Err(e),
            Ok((b, end)) => Ok(
                (
                    InstructionView::fresh(op, seq![OperandView::Reg(a), OperandView::Reg(b)]),
                    skipped(s, end),
                ),
            ),
        },
    }
}

/// An instruction on three registers.
pub open spec fn three_operands_at(s: Seq<u8>, at: int, op: Opcode) -> Result<
    (InstructionView, int),
    SyntaxError,
> {
    match register_after(s, at) {
        Err(e) => Err(e),
        Ok((a, first_end)) => match register_after(s, first_end) {
            Err(e) => Err(e),
            Ok((b, second_end)) => match register_after(s, second_end) {
                Err(e) => Err(e),
                Ok((c, end)) => Ok(
                    (
                        InstructionView::fresh(
                            op,
                            seq![OperandView::Reg(a), OperandView::Reg(b), OperandView::Reg(c)],
                        ),
                        skipped(s, end),
                    ),
                ),
            },
        },
    }
}

/// An instruction on a register and an operand of eight bits.
pub open spec fn immediate_instruction_at(s: Seq<u8>, at: int, op: Opcode) -> Result<
    (InstructionView, int),
    SyntaxError,
> {
    match register_after(s, at) {
        Err(e) => Err(e),
        Ok((a, first_end)) => match next_token_at(s, first_end) {
            Err(e) => Err(e),
            Ok(start) => match operand_immediate_at(s, start) {
                Err(e) => Err(e),
                Ok((value, end)) => Ok(
                    (InstructionView::fresh(op, seq![OperandView::Reg(a), value]), skipped(s, end)),
                ),
            },
        },
    }
}

/// A jump or call.
pub open spec fn address_instruction_at(s: Seq<u8>, at: int, op: Opcode) -> Result<
    (InstructionView, int),
    SyntaxError,
> {
    match next_token_at(s, at) {
        Err(e) => Err(e),
        Ok(start) => match operand_address_at(s, start) {
            Err(e) => Err(e),
            Ok((target, end)) => Ok((InstructionView::fresh(op, seq![target]), skipped(s, end))),
        },
    }
}

/// A branch.
pub open spec fn branch_instruction_at(s: Seq<u8>, at: int, op: Opcode) -> Result<
    (InstructionView, int),
    SyntaxError,
> {
    match next_token_at(s, at) {
        Err(e) => Err(e),
        Ok(start) => match condition_at(s, start) {
            Err(e) => Err(e),
            Ok((cond, cond_end)) => match next_token_at(s, cond_end) {
                Err(e) => Err(e),
                Ok(target_start) => match operand_address_at(s, target_start) {
                    Err(e) => Err(e),
                    Ok((target, end)) => Ok(
                        (
                            InstructionView::fresh(op, seq![OperandView::Cond(cond), target]),
                            skipped(s, end),
                        ),
                    ),
                },
            },
        },
    }
}

/// What follows the two registers of a load or store, which end at `at`. After
/// a comma the third operand must follow. Without a comma it may follow after
/// another separator; where it does not, the instruction has two operands.
pub open spec fn third_operand_at(s: Seq<u8>, at: int) -> Result<
    (Option<OperandView>, int),
    SyntaxError,
> {
    match next_token_at(s, at) {
        Err(_) => Ok((None, at)),
        Ok(start) => match operand_offset_at(s, start) {
            Ok((third, end)) => Ok((Some(third), skipped(s, end))),
            Err(e) => if byte_is(s, at, ',') {
                Err(e)
            } else {
                Ok((None, skipped(s, start)))
            },
        },
    }
}

/// A load or store.
pub open spec fn load_and_store_at(s: Seq<u8>, at: int, op: Opcode) -> Result<
    (InstructionView, int),
    SyntaxError,
> {
    match register_after(s, at) {
        Err(e) => Err(e),
        Ok((a, first_end)) => match register_after(s, first_end) {
            Err(e) => Err(e),
            Ok((b, second_end)) => match third_operand_at(s, second_end) {
                Err(e) => Err(e),
                Ok((Some(third), end)) => Ok(
                    (
                        InstructionView::fresh(
                            op,
                            seq![OperandView::Reg(a), OperandView::Reg(b), third],
                        ),
                        end,
                    ),
                ),
                Ok((None, end)) => Ok(
                    (
                        InstructionView::fresh(op, seq![OperandView::Reg(a), OperandView::Reg(b)]),
                        end,
                    ),
                ),
            },
        },
    }
}

/// The operands of an instruction with the given mnemonic, from the end of the
/// mnemonic on.
pub open spec fn operands_at(s: Seq<u8>, at: int, op: Opcode) -> Result<
    (InstructionView, int),
    SyntaxError,
> {
    match op {
        Opcode::NOP | Opcode::HLT | Opcode::RET => no_operands_at(s, at, op),
        Opcode::ADD | Opcode::SUB | Opcode::NOR | Opcode::AND | Opcode::XOR => three_operands_at(
            s,
            at,
            op,
        ),
        Opcode::RSH | Opcode::CMP | Opcode::MOV | Opcode::LSH | Opcode::NOT | Opcode::NEG => {
            two_operands_at(s, at, op)
        },
        Opcode::INC | Opcode::DEC => one_operand_at(s, at, op),
        Opcode::LDI | Opcode::ADI => immediate_instruction_at(s, at, op),
        Opcode::JMP | Opcode::CAL => address_instruction_at(s, at, op),
        Opcode::BRH => branch_instruction_at(s, at, op),
        Opcode::LOD | Opcode::STR => load_and_store_at(s, at, op),
        Opcode::_Label | Opcode::_Definition => fault(at, SyntaxKind::UnknownOpcode),
    }
}

/// An instruction: whitespace, a mnemonic, and the operands that it asks for.
pub open spec fn parse_instruction_at(s: Seq<u8>, at: int) -> Result<
    (InstructionView, int),
    SyntaxError,
> {
    match opcode_at(s, run_end(s, at, ByteClass::Whitespace)) {
        Err(e) => Err(e),
        Ok((op, end)) => operands_at(s, end, op),
    }
}

/// A label marker: the declaration of a label.
pub open spec fn parse_labels_at(s: Seq<u8>, at: int) -> Result<
    (InstructionView, int),
    SyntaxError,
> {
    match label_define_at(s, at) {
        Err(e) => Err(e),
        Ok((name, end)) => Ok(
            (InstructionView::fresh(Opcode::_Label, seq![OperandView::Name(name)]), end),
        ),
    }
}

/// A definition marker: the declaration of a constant.
pub open spec fn parse_definitions_at(s: Seq<u8>, at: int) -> Result<
    (InstructionView, int),
    SyntaxError,
> {
    match define_at(s, at) {
        Err(e) => Err(e),
        Ok((def, end)) => Ok(
            (InstructionView::fresh(Opcode::_Definition, seq![OperandView::Def(def)]), end),
        ),
    }
}

/// Whether a number begins at `at`.
fn number_starts(input: &[u8], at: usize) -> (r: bool)
    requires
        at <= input@.len(),
    ensures
        r == starts_number(input@, at as int),
{
    at < input.len() && (input[at] == ('+' as u8) || input[at] == ('-' as u8) || (input[at] >= (
    '0' as u8) && input[at] <= ('9' as u8)))
}

/// Reads the third operand of a load or store at `at`.
pub fn operand_offset(input: &[u8], at: usize) -> (r: Result<(Operand, usize), SyntaxError>)
    requires
        at <= input@.len(),
    ensures
        agrees_in_view(r, operand_offset_at(input@, at as int)),
        advances(r, at, input@.len()),
{
    if number_starts(input, at) {
        let (off, end) = offset(input, at)?;
        Ok((Operand::Offset(off), end))
    } else {
        let (def, end) = definition(input, at)?;
        Ok((Operand::Def(def), end))
    }
}

/// Reads an operand that stands for eight bits at `at`.
pub fn operand_immediate(input: &[u8], at: usize) -> (r: Result<(Operand, usize), SyntaxError>)
    requires
        at <= input@.len(),
    ensures
        agrees_in_view(r, operand_immediate_at(input@, at as int)),
        advances(r, at, input@.len()),
{
    if number_starts(input, at) {
        let (imm, end) = immediate(input, at)?;
        Ok((Operand::Imm(imm), end))
    } else if at < input.len() && (input[at] == ('"' as u8) || input[at] == ('\'' as u8)) {
        let (ch, end) = character(input, at)?;
        Ok((Operand::Char(ch), end))
    } else {
        match port(input, at) {
            Ok((found, end)) => Ok((Operand::Port(found), end)),
            Err(_) => {
                let (def, end) = definition(input, at)?;
                Ok((Operand::Def(def), end))
            },
        }
    }
}

/// Reads the target of a jump, call or branch at `at`.
pub fn operand_address(input: &[u8], at: usize) -> (r: Result<(Operand, usize), SyntaxError>)
    requires
        at <= input@.len(),
    ensures
        agrees_in_view(r, operand_address_at(input@, at as int)),
        advances(r, at, input@.len()),
{
    if at < input.len() && input[at] == ('.' as u8) {
        let (label, end) = label_usage(input, at)?;
        Ok((Operand::Label(label), end))
    } else {
        let (addr, end) = address(input, at)?;
        Ok((Operand::Addr(addr), end))
    }
}

/// Passes over what may follow an instruction: comments and whitespace.
pub fn next_instruction(input: &[u8], at: usize) -> (end: usize)
    requires
        at <= input@.len(),
    ensures
        end == skipped(input@, at as int),
        at <= end <= input@.len(),
{
    skip(input, at)
}

/// A separator and a register after it.
fn separated_register(input: &[u8], at: usize) -> (r: Result<(Register, usize), SyntaxError>)
    requires
        at <= input@.len(),
    ensures
        agrees(r, register_after(input@, at as int)),
        advances(r, at, input@.len()),
{
    let start = next_token(input, at)?;
    register(input, start)
}

/// Reads what follows the mnemonic of an instruction without operands.
fn no_operands(input: &[u8], at: usize, op: Opcode) -> (r: Result<
    (Instruction, usize),
    SyntaxError,
>)
    requires
        at <= input@.len(),
    ensures
        agrees_in_view(r, no_operands_at(input@, at as int, op)),
        advances(r, at, input@.len()),
{
    let end = next_instruction(input, at);
    Ok((Instruction::new(op), end))
}

/// Reads the operand of an instruction on one register.
fn one_operand(input: &[u8], at: usize, op: Opcode) -> (r: Result<
    (Instruction, usize),
    SyntaxError,
>)
    requires
        at <= input@.len(),
    ensures
        agrees_in_view(r, one_operand_at(input@, at as int, op)),
        advances(r, at, input@.len()),
{
    let (a, end) = separated_register(input, at)?;
    let end = next_instruction(input, end);
    let mut made = Instruction::new(op);
    made.add_register(a);
    assert(made@.operands =~= seq![OperandView::Reg(a)]);
    Ok((made, end))
}

/// Reads the operands of an instruction on two registers.
fn two_operands(input: &[u8], at: usize, op: Opcode) -> (r: Result<
    (Instruction, usize),
    SyntaxError,
>)
    requires
        at <= input@.len(),
    ensures
        agrees_in_view(r, two_operands_at(input@, at as int, op)),
        advances(r, at, input@.len()),
{
    let (a, end) = separated_register(input, at)?;
    let (b, end) = separated_register(input, end)?;
    let end = next_instruction(input, end);
    let mut made = Instruction::new(op);
    made.add_register(a);
    made.add_register(b);
    assert(made@.operands =~= seq![OperandView::Reg(a), OperandView::Reg(b)]);
    Ok((made, end))
}

/// Reads the operands of an instruction on three registers.
fn three_operands(input: &[u8], at: usize, op: Opcode) -> (r: Result<
    (Instruction, usize),
    SyntaxError,
>)
    requires
        at <= input@.len(),
    ensures
        agrees_in_view(r, three_operands_at(input@, at as int, op)),
        advances(r, at, input@.len()),
{
    let (a, end) = separated_register(input, at)?;
    let (b, end) = separated_register(input, end)?;
    let (c, end) = separated_register(input, end)?;
    let end = next_instruction(input, end);
    let mut made = Instruction::new(op);
    made.add_register(a);
    made.add_register(b);
    made.add_register(c);
    assert(made@.operands =~= seq![
        OperandView::Reg(a),
        OperandView::Reg(b),
        OperandView::Reg(c),
    ]);
    Ok((made, end))
}

/// Reads the operands of an instruction on a register and eight bits.
fn immediate_instructions(input: &[u8], at: usize, op: Opcode) -> (r: Result<
    (Instruction, usize),
    SyntaxError,
>)
    requires
        at <= input@.len(),
    ensures
        agrees_in_view(r, immediate_instruction_at(input@, at as int, op)),
        advances(r, at, input@.len()),
{
    let (a, end) = separated_register(input, at)?;
    let start = next_token(input, end)?;
    let (value, end) = operand_immediate(input, start)?;
    let end = next_instruction(input, end);
    let mut made = Instruction::new(op);
    made.add_register(a);
    let ghost value_view = value@;
    made.add_operand(value);
    assert(made@.operands =~= seq![OperandView::Reg(a), value_view]);
    Ok((made, end))
}

/// Reads the operand of a jump or call.
fn address_instructions(input: &[u8], at: usize, op: Opcode) -> (r: Result<
    (Instruction, usize),
    SyntaxError,
>)
    requires
        at <= input@.len(),
    ensures
        agrees_in_view(r, address_instruction_at(input@, at as int, op)),
        advances(r, at, input@.len()),
{
    let start = next_token(input, at)?;
    let (target, end) = operand_address(input, start)?;
    let end = next_instruction(input, end);
    let mut made = Instruction::new(op);
    let ghost target_view = target@;
    made.add_operand(target);
    assert(made@.operands =~= seq![target_view]);
    Ok((made, end))
}

/// Reads the operands of a branch.
fn branch_instruction(input: &[u8], at: usize, op: Opcode) -> (r: Result<
    (Instruction, usize),
    SyntaxError,
>)
    requires
        at <= input@.len(),
    ensures
        agrees_in_view(r, branch_instruction_at(input@, at as int, op)),
        advances(r, at, input@.len()),
{
    let start = next_token(input, at)?;
    let (cond, end) = condition(input, start)?;
    let start = next_token(input, end)?;
    let (target, end) = operand_address(input, start)?;
    let end = next_instruction(input, end);
    let mut made = Instruction::new(op);
    made.add_condition(cond);
    let ghost target_view = target@;
    made.add_operand(target);
    assert(made@.operands =~= seq![OperandView::Cond(cond), target_view]);
    Ok((made, end))
}

/// An exec result for the third operand agrees with what the grammar gives.
pub open spec fn third_agrees(r: Result<(Option<Operand>, usize), SyntaxError>, expected: Result<
    (Option<OperandView>, int),
    SyntaxError,
>) -> bool {
    match r {
        Ok((Some(third), end)) => expected == Ok::<(Option<OperandView>, int), SyntaxError>(
            (Some(third@), end as int),
        ),
        Ok((None, end)) => expected == Ok::<(Option<OperandView>, int), SyntaxError>(
            (None, end as int),
        ),
        Err(e) => expected == Err::<(Option<OperandView>, int), SyntaxError>(e),
    }
}

/// What follows the two registers of a load or store.
fn third_operand(input: &[u8], at: usize) -> (r: Result<(Option<Operand>, usize), SyntaxError>)
    requires
        at <= input@.len(),
    ensures
        third_agrees(r, third_operand_at(input@, at as int)),
        r matches Ok((_, end)) ==> at <= end <= input@.len(),
        r matches Err(e) ==> at <= e.offset <= input@.len(),
{
    let comma = at < input.len() && input[at] == (',' as u8);
    match next_token(input, at) {
        Err(_) => Ok((None, at)),
        Ok(start) => match operand_offset(input, start) {
            Ok((third, end)) => Ok((Some(third), next_instruction(input, end))),
            Err(e) => if comma {
                Err(e)
            } else {
                Ok((None, next_instruction(input, start)))
            },
        },
    }
}

/// Reads the operands of a load or store.
fn load_and_store(input: &[u8], at: usize, op: Opcode) -> (r: Result<
    (Instruction, usize),
    SyntaxError,
>)
    requires
        at <= input@.len(),
    ensures
        agrees_in_view(r, load_and_store_at(input@, at as int, op)),
        advances(r, at, input@.len()),
{
    let (a, end) = separated_register(input, at)?;
    let (b, end) = separated_register(input, end)?;
    let (third, end) = third_operand(input, end)?;
    let mut made = Instruction::new(op);
    made.add_register(a);
    made.add_register(b);
    match third {
        Some(operand) => {
            let ghost third_view = operand@;
            made.add_operand(operand);
            assert(made@.operands =~= seq![
                OperandView::Reg(a),
                OperandView::Reg(b),
                third_view,
            ]);
        },
        None => {
            assert(made@.operands =~= seq![OperandView::Reg(a), OperandView::Reg(b)]);
        },
    }
    Ok((made, end))
}

/// Reads the instruction at `at`.
pub fn parse_instruction(input: &[u8], at: usize) -> (r: Result<
    (Instruction, usize),
    SyntaxError,
>)
    requires
        at <= input@.len(),
    ensures
        agrees_in_view(r, parse_instruction_at(input@, at as int)),
        advances(r, at, input@.len()),
        r matches Ok((_, end)) ==> at < end,
{
    let start = scan_run(input, at, ByteClass::Whitespace);
    let (op, end) = opcode(input, start)?;
    match op {
        Opcode::NOP | Opcode::HLT | Opcode::RET => no_operands(input, end, op),
        Opcode::ADD | Opcode::SUB | Opcode::NOR | Opcode::AND | Opcode::XOR => three_operands(
            input,
            end,
            op,
        ),
        Opcode::RSH | Opcode::CMP | Opcode::MOV | Opcode::LSH | Opcode::NOT | Opcode::NEG => {
            two_operands(input, end, op)
        },
        Opcode::INC | Opcode::DEC => one_operand(input, end, op),
        Opcode::LDI | Opcode::ADI => immediate_instructions(input, end, op),
        Opcode::JMP | Opcode::CAL => address_instructions(input, end, op),
        Opcode::BRH => branch_instruction(input, end, op),
        Opcode::LOD | Opcode::STR => load_and_store(input, end, op),
        Opcode::_Label | Opcode::_Definition => Err(
            SyntaxError { offset: end, kind: SyntaxKind::UnknownOpcode },
        ),
    }
}

/// Reads the declaration of a label at `at`.
pub fn parse_labels(input: &[u8], at: usize) -> (r: Result<(Instruction, usize), SyntaxError>)
    requires
        at <= input@.len(),
    ensures
        agrees_in_view(r, parse_labels_at(input@, at as int)),
        advances(r, at, input@.len()),
        r matches Ok((_, end)) ==> at < end,
{
    let (name, end) = label_define(input, at)?;
    let mut made = Instruction::new(Opcode::_Label);
    let ghost name_view = name@;
    made.add_label_name(name);
    assert(made@.operands =~= seq![OperandView::Name(name_view)]);
    Ok((made, end))
}

/// Reads the declaration of a constant at `at`.
pub fn parse_definitions(input: &[u8], at: usize) -> (r: Result<
    (Instruction, usize),
    SyntaxError,
>)
    requires
        at <= input@.len(),
    ensures
        agrees_in_view(r, parse_definitions_at(input@, at as int)),
        advances(r, at, input@.len()),
        r matches Ok((_, end)) ==> at < end,
{
    let (def, end) = define(input, at)?;
    let mut made = Instruction::new(Opcode::_Definition);
    let ghost def_view = def@;
    made.add_definition(def);
    assert(made@.operands =~= seq![OperandView::Def(def_view)]);
    Ok((made, end))
}
} // verus!
