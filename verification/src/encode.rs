//! The encoder: packs each instruction into its 16-bit word.
//!
//! A word holds the operation in bits 15 to 12. The other twelve bits depend on
//! the operation: up to three register fields of four bits each (bits 11 to 8,
//! 7 to 4 and 3 to 0), an eight-bit immediate (bits 7 to 0), a ten-bit address
//! (bits 9 to 0) below a two-bit condition (bits 11 and 10), or a four-bit
//! offset (bits 3 to 0). A macro is encoded as the real operation that it
//! stands for.

use crate::immediate::Immediate;
use crate::instruction::{program_view, Instruction, InstructionView};
use crate::label::{Label, LabelView};
use crate::opcode::Opcode;
use crate::operand::{operands_view, Operand, OperandView};
use crate::register::Register;
use vstd::prelude::*;

verus! {

/// Why an instruction could not be encoded.
#[derive(Debug)]
pub enum EncodingError {
    /// A field would reach beyond the sixteen bits of the word.
    ValueOutOfBounds { value: u16, length: u16 },
    /// A value needs more bits than its field has.
    ValueOverflow { value: u16, length: u16 },
    /// An operand is of another kind than its field takes.
    InvalidOperand { expected: String, found: Operand },
    /// The instruction has no operand for a field.
    MissingOperand { expected: String },
    /// A definition was used that has no value.
    UnboundDefinition(String),
    /// A definition used as an offset has a value outside -8 to 7.
    InvalidOffset(i16),
    /// A label reference has no address.
    InvalidLabel(Label),
}

/// What an encoding error holds, names as sequences of characters.
pub enum EncodingErrorView {
    ValueOutOfBounds { value: u16, length: u16 },
    ValueOverflow { value: u16, length: u16 },
    InvalidOperand { expected: Seq<char>, found: OperandView },
    MissingOperand { expected: Seq<char> },
    UnboundDefinition(Seq<char>),
    InvalidOffset(i16),
    InvalidLabel(LabelView),
}

impl View for EncodingError {
    type V = EncodingErrorView;

    open spec fn view(&self) -> EncodingErrorView {
        match self {
            EncodingError::ValueOutOfBounds { value, length } => {
                EncodingErrorView::ValueOutOfBounds { value: *value, length: *length }
            },
            EncodingError::ValueOverflow { value, length } => EncodingErrorView::ValueOverflow {
                value: *value,
                length: *length,
            },
            EncodingError::InvalidOperand { expected, found } => {
                EncodingErrorView::InvalidOperand { expected: expected@, found: found@ }
            },
            EncodingError::MissingOperand { expected } => EncodingErrorView::MissingOperand {
                expected: expected@,
            },
            EncodingError::UnboundDefinition(name) => EncodingErrorView::UnboundDefinition(name@),
            EncodingError::InvalidOffset(v) => EncodingErrorView::InvalidOffset(*v),
            EncodingError::InvalidLabel(label) => EncodingErrorView::InvalidLabel(label@),
        }
    }
}

/// A word or the view of the error that stood in its way.
pub open spec fn word_view(r: Result<u16, EncodingError>) -> Result<u16, EncodingErrorView> {
    match r {
        Ok(w) => Ok(w),
        Err(e) => Err(e@),
    }
}

/// The bits of the field that begins at bit `offset` and is `length` bits wide.
pub open spec fn field_mask(offset: u16, length: u16) -> u16 {
    if offset >= 16 {
        0u16
    } else if length >= 16 {
        0xffffu16 << offset
    } else {
        (!(0xffffu16 << length)) << offset
    }
}

/// The value needs no more than `length` bits.
pub open spec fn fits(value: u16, length: u16) -> bool {
    length >= 16 || (value >> length) == 0
}

/// The word with the field at `offset` cleared and then set to `value`.
pub open spec fn set_field(word: u16, offset: u16, length: u16, value: u16) -> u16 {
    if offset >= 16 {
        word
    } else {
        (word & !field_mask(offset, length)) | (value << offset)
    }
}

/// Writing a field: refused where the field would leave the word or the value
/// does not fit the field.
pub open spec fn write_field(word: u16, offset: u16, length: u16, value: u16) -> Result<
    u16,
    EncodingErrorView,
> {
    if offset + length > 16 {
        Err(EncodingErrorView::ValueOutOfBounds { value, length })
    } else if !fits(value, length) {
        Err(EncodingErrorView::ValueOverflow { value, length })
    } else {
        Ok(set_field(word, offset, length, value))
    }
}

/// The value of a register field.
pub open spec fn register_field(operand: OperandView) -> Result<u16, EncodingErrorView> {
    match operand {
        OperandView::Reg(reg) => Ok(reg.spec_index() as u16),
        _ => Err(EncodingErrorView::InvalidOperand { expected: "register"@, found: operand }),
    }
}

/// The eight bits of a value between -128 and 255; an overflow outside.
pub open spec fn byte_of(value: i16) -> Result<u16, EncodingErrorView> {
    if -128 <= value <= 255 {
        Ok((value as int % 256) as u16)
    } else {
        Err(EncodingErrorView::ValueOverflow { value: (value as int % 65536) as u16, length: 8 })
    }
}

/// The value of the immediate field: a literal, the value of a definition, the
/// address of a port or the code of a character.
pub open spec fn immediate_field(operand: OperandView) -> Result<u16, EncodingErrorView> {
    match operand {
        OperandView::Imm(imm) => Ok(imm.spec_value() as u16),
        OperandView::Def(def) => match def.value {
            Some(v) => byte_of(v),
            None => Err(EncodingErrorView::UnboundDefinition(def.name)),
        },
        OperandView::Port(port) => Ok(port.spec_code() as u16),
        OperandView::Char(ch) => if (ch as u32) < 256 {
            Ok(ch as u16)
        } else {
            Err(
                EncodingErrorView::ValueOverflow {
                    value: ((ch as u32) % 65536) as u16,
                    length: 8,
                },
            )
        },
        _ => Err(EncodingErrorView::InvalidOperand { expected: "immediate"@, found: operand }),
    }
}

/// The value of the condition field.
pub open spec fn condition_field(operand: OperandView) -> Result<u16, EncodingErrorView> {
    match operand {
        OperandView::Cond(cond) => Ok(cond.spec_code() as u16),
        _ => Err(EncodingErrorView::InvalidOperand { expected: "condition"@, found: operand }),
    }
}

/// A word index as the value of the address field.
pub open spec fn word_index_field(index: u16) -> Result<u16, EncodingErrorView> {
    if index < 1024 {
        Ok(index)
    } else {
        Err(EncodingErrorView::ValueOverflow { value: index, length: 10 })
    }
}

/// The value of the address field: an address, or that of a resolved label.
pub open spec fn address_field(operand: OperandView) -> Result<u16, EncodingErrorView> {
    match operand {
        OperandView::Addr(addr) => word_index_field(addr.0),
        OperandView::Label(label) => match label.address {
            Some(addr) => word_index_field(addr.0),
            None => Err(EncodingErrorView::InvalidLabel(label)),
        },
        _ => Err(EncodingErrorView::InvalidOperand { expected: "address"@, found: operand }),
    }
}

/// The value of the offset field. Without an operand the offset is 0.
pub open spec fn offset_field(operand: Option<OperandView>) -> Result<u16, EncodingErrorView> {
    match operand {
        None => Ok(0u16),
        Some(OperandView::Offset(off)) => Ok(off.spec_encode() as u16),
        Some(OperandView::Def(def)) => match def.value {
            Some(v) => if -8 <= v <= 7 {
                Ok((v as int % 16) as u16)
            } else {
                Err(EncodingErrorView::InvalidOffset(v))
            },
            None => Err(EncodingErrorView::UnboundDefinition(def.name)),
        },
        Some(other) => Err(
            EncodingErrorView::InvalidOperand { expected: "optional immediate"@, found: other },
        ),
    }
}

/// The operand at `index`, if the instruction has that many.
pub open spec fn operand_at(operands: Seq<OperandView>, index: int) -> Option<OperandView> {
    if 0 <= index < operands.len() {
        Some(operands[index])
    } else {
        None
    }
}

/// The value of a register field, for which an operand must be there.
pub open spec fn register_slot(operand: Option<OperandView>) -> Result<u16, EncodingErrorView> {
    match operand {
        Some(found) => register_field(found),
        None => Err(EncodingErrorView::MissingOperand { expected: "register"@ }),
    }
}

/// The value of the immediate field, for which an operand must be there.
pub open spec fn immediate_slot(operand: Option<OperandView>) -> Result<u16, EncodingErrorView> {
    match operand {
        Some(found) => immediate_field(found),
        None => Err(EncodingErrorView::MissingOperand { expected: "immediate"@ }),
    }
}

/// The value of the condition field, for which an operand must be there.
pub open spec fn condition_slot(operand: Option<OperandView>) -> Result<u16, EncodingErrorView> {
    match operand {
        Some(found) => condition_field(found),
        None => Err(EncodingErrorView::MissingOperand { expected: "condition"@ }),
    }
}

/// The value of the address field, for which an operand must be there.
pub open spec fn address_slot(operand: Option<OperandView>) -> Result<u16, EncodingErrorView> {
    match operand {
        Some(found) => address_field(found),
        None => Err(EncodingErrorView::MissingOperand { expected: "address"@ }),
    }
}

/// A real operation with up to three operands, each of which may be missing.
pub struct RealForm {
    pub opcode: Opcode,
    pub first: Option<OperandView>,
    pub second: Option<OperandView>,
    pub third: Option<OperandView>,
}

/// The real instruction that an instruction stands for: a macro is rewritten,
/// any other instruction is taken as it is.
pub open spec fn real_form(inst: InstructionView) -> RealForm {
    let r0 = Some(OperandView::Reg(Register::R0));
    let a = operand_at(inst.operands, 0);
    let b = operand_at(inst.operands, 1);
    let c = operand_at(inst.operands, 2);
    match inst.opcode {
        Opcode::CMP => RealForm { opcode: Opcode::SUB, first: a, second: b, third: r0 },
        Opcode::MOV => RealForm { opcode: Opcode::ADD, first: a, second: r0, third: b },
        Opcode::LSH => RealForm { opcode: Opcode::ADD, first: a, second: a, third: b },
        Opcode::INC => RealForm {
            opcode: Opcode::ADI,
            first: a,
            second: Some(OperandView::Imm(Immediate(1i16))),
            third: None,
        },
        Opcode::DEC => RealForm {
            opcode: Opcode::ADI,
            first: a,
            second: Some(OperandView::Imm(Immediate(-1i16))),
            third: None,
        },
        Opcode::NOT => RealForm { opcode: Opcode::NOR, first: a, second: r0, third: b },
        Opcode::NEG => RealForm { opcode: Opcode::SUB, first: r0, second: a, third: b },
        _ => RealForm { opcode: inst.opcode, first: a, second: b, third: c },
    }
}

/// The word whose operation field holds `code`, bits 11 to 8 `high`, bits 7 to
/// 4 `middle`, and whose lowest bits hold `low`.
pub open spec fn pack(code: u16, high: u16, middle: u16, low: u16) -> u16 {
    (code << 12) | (high << 8) | (middle << 4) | low
}

/// The word of a branch: the condition in bits 11 and 10 above the address.
pub open spec fn pack_branch(code: u16, cond: u16, address: u16) -> u16 {
    (code << 12) | (cond << 10) | address
}

/// The word of an operation on three registers.
pub open spec fn three_register_word(
    code: u16,
    a: Option<OperandView>,
    b: Option<OperandView>,
    c: Option<OperandView>,
) -> Result<u16, EncodingErrorView> {
    match register_slot(a) {
        Err(e) => Err(e),
        Ok(ra) => match register_slot(b) {
            Err(e) => Err(e),
            Ok(rb) => match register_slot(c) {
                Err(e) => Err(e),
                Ok(rc) => Ok(pack(code, ra, rb, rc)),
            },
        },
    }
}

/// The word of an operation on two registers, which leaves bits 7 to 4 empty.
pub open spec fn two_register_word(
    code: u16,
    a: Option<OperandView>,
    c: Option<OperandView>,
) -> Result<u16, EncodingErrorView> {
    match register_slot(a) {
        Err(e) => Err(e),
        Ok(ra) => match register_slot(c) {
            Err(e) => Err(e),
            Ok(rc) => Ok(pack(code, ra, 0, rc)),
        },
    }
}

/// The word of an operation on a register and an eight-bit value.
pub open spec fn immediate_word(
    code: u16,
    a: Option<OperandView>,
    value: Option<OperandView>,
) -> Result<u16, EncodingErrorView> {
    match register_slot(a) {
        Err(e) => Err(e),
        Ok(ra) => match immediate_slot(value) {
            Err(e) => Err(e),
            Ok(imm) => Ok(pack(code, ra, 0, imm)),
        },
    }
}

/// The word of a jump or call.
pub open spec fn jump_word(code: u16, target: Option<OperandView>) -> Result<
    u16,
    EncodingErrorView,
> {
    match address_slot(target) {
        Err(e) => Err(e),
        Ok(addr) => Ok(pack_branch(code, 0, addr)),
    }
}

/// The word of a branch.
pub open spec fn branch_word(
    code: u16,
    cond: Option<OperandView>,
    target: Option<OperandView>,
) -> Result<u16, EncodingErrorView> {
    match condition_slot(cond) {
        Err(e) => Err(e),
        Ok(c) => match address_slot(target) {
            Err(e) => Err(e),
            Ok(addr) => Ok(pack_branch(code, c, addr)),
        },
    }
}

/// The word of a load or store. Its third operand may be missing.
pub open spec fn memory_word(
    code: u16,
    a: Option<OperandView>,
    b: Option<OperandView>,
    offset: Option<OperandView>,
) -> Result<u16, EncodingErrorView> {
    match register_slot(a) {
        Err(e) => Err(e),
        Ok(ra) => match register_slot(b) {
            Err(e) => Err(e),
            Ok(rb) => match offset_field(offset) {
                Err(e) => Err(e),
                Ok(off) => Ok(pack(code, ra, rb, off)),
            },
        },
    }
}

/// The word of a real instruction. Its fields are written from the highest
/// bits down, and the first one that cannot be written decides the error.
pub open spec fn encoded_real(form: RealForm) -> Result<u16, EncodingErrorView>
    recommends
        form.opcode.is_real(),
{
    let code = form.opcode.spec_code();
    match form.opcode {
        Opcode::ADD | Opcode::SUB | Opcode::NOR | Opcode::AND | Opcode::XOR => {
            three_register_word(code, form.first, form.second, form.third)
        },
        Opcode::RSH => two_register_word(code, form.first, form.second),
        Opcode::LDI | Opcode::ADI => immediate_word(code, form.first, form.second),
        Opcode::JMP | Opcode::CAL => jump_word(code, form.first),
        Opcode::BRH => branch_word(code, form.first, form.second),
        Opcode::LOD | Opcode::STR => memory_word(code, form.first, form.second, form.third),
        _ => Ok(pack(code, 0, 0, 0)),
    }
}

/// The word of an instruction: that of its real form. A marker has none.
pub open spec fn encoded(inst: InstructionView) -> Result<Option<u16>, EncodingErrorView> {
    if inst.opcode.is_marker() {
        Ok(None)
    } else {
        match encoded_real(real_form(inst)) {
            Ok(w) => Ok(Some(w)),
            Err(e) => Err(e),
        }
    }
}

/// The instruction as the encoder leaves it: with its word, where it has one.
pub open spec fn with_encoding(inst: InstructionView) -> InstructionView
    recommends
        encoded(inst) is Ok,
{
    if inst.opcode.is_marker() {
        inst
    } else {
        InstructionView { encoding: encoded(inst)->Ok_0, ..inst }
    }
}

/// The index of the first instruction from `from` on that cannot be encoded;
/// the length of the program where there is none.
pub open spec fn first_unencodable(program: Seq<InstructionView>, from: int) -> int
    decreases program.len() - from,
{
    if from < 0 || from >= program.len() {
        program.len() as int
    } else if encoded(program[from]) is Err {
        from
    } else {
        first_unencodable(program, from + 1)
    }
}

/// The program with the words of its first `count` instructions filled in.
pub open spec fn encoded_prefix(program: Seq<InstructionView>, count: int) -> Seq<
    InstructionView,
> {
    Seq::new(
        program.len(),
        |i: int|
            if i < count {
                with_encoding(program[i])
            } else {
                program[i]
            },
    )
}

/// What encoding makes of a program: every instruction with its word, or the
/// error of the first instruction that cannot be encoded.
pub open spec fn encoded_program(program: Seq<InstructionView>) -> Result<
    Seq<InstructionView>,
    EncodingErrorView,
> {
    let stop = first_unencodable(program, 0);
    if stop >= program.len() {
        Ok(encoded_prefix(program, program.len() as int))
    } else {
        Err(encoded(program[stop])->Err_0)
    }
}

/// The view of an operand that may be missing.
pub open spec fn view_of(operand: Option<&Operand>) -> Option<OperandView> {
    match operand {
        Some(found) => Some(found@),
        None => None,
    }
}

/// A word, if any, or the view of the error that stood in its way.
pub open spec fn encoding_view(r: Result<Option<u16>, EncodingError>) -> Result<
    Option<u16>,
    EncodingErrorView,
> {
    match r {
        Ok(w) => Ok(w),
        Err(e) => Err(e@),
    }
}

/// Packs programs and instructions into machine words.
pub struct InstructionEncoder {}

impl InstructionEncoder {
    /// An encoder. It holds no state: every word is made from its instruction alone.
    pub fn new() -> (r: InstructionEncoder)
        ensures
            r == (InstructionEncoder {  }),
    {
        InstructionEncoder {  }
    }

    /// Writes `value` into the field of `word` that begins at bit `offset` and
    /// is `length` bits wide.
    pub fn encode_bits(word: u16, offset: u16, length: u16, value: u16) -> (r: Result<
        u16,
        EncodingError,
    >)
        ensures
            word_view(r) == write_field(word, offset, length, value),
    {
        if offset > 16 || length > 16 || offset + length > 16 {
            return Err(EncodingError::ValueOutOfBounds { value, length });
        }
        if length < 16 && (value >> length) != 0 {
            return Err(EncodingError::ValueOverflow { value, length });
        }
        if offset >= 16 {
            return Ok(word);
        }
        let mask: u16 = if length >= 16 {
            0xffffu16 << offset
        } else {
            (!(0xffffu16 << length)) << offset
        };
        Ok((word & !mask) | (value << offset))
    }

    /// Writes the operation into bits 15 to 12.
    pub fn encode_opcode(word: u16, opcode: Opcode) -> (r: Result<u16, EncodingError>)
        ensures
            word_view(r) == write_field(word, 12, 4, opcode.spec_code()),
    {
        Self::encode_bits(word, 12, 4, opcode.code())
    }

    /// Writes a register into bits 11 to 8.
    pub fn encode_a(word: u16, operand: &Operand) -> (r: Result<u16, EncodingError>)
        ensures
            word_view(r) == (match register_field(operand@) {
                Ok(v) => write_field(word, 8, 4, v),
                Err(e) => Err(e),
            }),
    {
        match operand {
            Operand::Reg(reg) => Self::encode_bits(word, 8, 4, reg.index() as u16),
            _ => Err(
                EncodingError::InvalidOperand {
                    expected: "register".to_owned(),
                    found: operand.duplicate(),
                },
            ),
        }
    }

    /// Writes a register into bits 7 to 4.
    pub fn encode_b(word: u16, operand: &Operand) -> (r: Result<u16, EncodingError>)
        ensures
            word_view(r) == (match register_field(operand@) {
                Ok(v) => write_field(word, 4, 4, v),
                Err(e) => Err(e),
            }),
    {
        match operand {
            Operand::Reg(reg) => Self::encode_bits(word, 4, 4, reg.index() as u16),
            _ => Err(
                EncodingError::InvalidOperand {
                    expected: "register".to_owned(),
                    found: operand.duplicate(),
                },
            ),
        }
    }

    /// Writes a register into bits 3 to 0.
    pub fn encode_c(word: u16, operand: &Operand) -> (r: Result<u16, EncodingError>)
        ensures
            word_view(r) == (match register_field(operand@) {
                Ok(v) => write_field(word, 0, 4, v),
                Err(e) => Err(e),
            }),
    {
        match operand {
            Operand::Reg(reg) => Self::encode_bits(word, 0, 4, reg.index() as u16),
            _ => Err(
                EncodingError::InvalidOperand {
                    expected: "register".to_owned(),
                    found: operand.duplicate(),
                },
            ),
        }
    }

    /// The eight bits that stand for a value between -128 and 255.
    pub fn low_byte(value: i16) -> (r: Result<u16, EncodingError>)
        ensures
            word_view(r) == byte_of(value),
    {
        if value >= 0 && value <= 255 {
            Ok(value as u16)
        } else if value >= -128 && value < 0 {
            Ok((value + 256) as u16)
        } else if value >= 0 {
            Err(EncodingError::ValueOverflow { value: value as u16, length: 8 })
        } else {
            let below: i16 = -(value + 1);
            Err(EncodingError::ValueOverflow { value: 65535 - (below as u16), length: 8 })
        }
    }

    /// Writes an eight-bit value into bits 7 to 0.
    pub fn encode_imm(word: u16, operand: &Operand) -> (r: Result<u16, EncodingError>)
        ensures
            word_view(r) == (match immediate_field(operand@) {
                Ok(v) => write_field(word, 0, 8, v),
                Err(e) => Err(e),
            }),
    {
        match operand {
            Operand::Imm(imm) => Self::encode_bits(word, 0, 8, imm.value() as u16),
            Operand::Def(definition) => match definition.value {
                Some(v) => {
                    let byte = Self::low_byte(v)?;
                    Self::encode_bits(word, 0, 8, byte)
                },
                None => Err(EncodingError::UnboundDefinition(definition.name.clone())),
            },
            Operand::Port(port) => Self::encode_bits(word, 0, 8, port.code() as u16),
            Operand::Char(ch) => {
                let code: u32 = *ch as u32;
                if code < 256 {
                    Self::encode_bits(word, 0, 8, code as u16)
                } else {
                    Err(EncodingError::ValueOverflow { value: (code % 65536) as u16, length: 8 })
                }
            },
            _ => Err(
                EncodingError::InvalidOperand {
                    expected: "immediate".to_owned(),
                    found: operand.duplicate(),
                },
            ),
        }
    }

    /// Writes a condition into bits 11 and 10.
    pub fn encode_cond(word: u16, operand: &Operand) -> (r: Result<u16, EncodingError>)
        ensures
            word_view(r) == (match condition_field(operand@) {
                Ok(v) => write_field(word, 10, 2, v),
                Err(e) => Err(e),
            }),
    {
        match operand {
            Operand::Cond(cond) => Self::encode_bits(word, 10, 2, cond.code() as u16),
            _ => Err(
                EncodingError::InvalidOperand {
                    expected: "condition".to_owned(),
                    found: operand.duplicate(),
                },
            ),
        }
    }

    /// Writes an address into bits 9 to 0.
    pub fn encode_addr(word: u16, operand: &Operand) -> (r: Result<u16, EncodingError>)
        ensures
            word_view(r) == (match address_field(operand@) {
                Ok(v) => write_field(word, 0, 10, v),
                Err(e) => Err(e),
            }),
    {
        proof {
            lemma_ten_bits();
        }
        match operand {
            Operand::Addr(addr) => Self::encode_bits(word, 0, 10, addr.value()),
            Operand::Label(label) => match label.get_address() {
                Some(a) => Self::encode_bits(word, 0, 10, a.value()),
                None => Err(EncodingError::InvalidLabel(label.duplicate())),
            },
            _ => Err(
                EncodingError::InvalidOperand {
                    expected: "address".to_owned(),
                    found: operand.duplicate(),
                },
            ),
        }
    }

    /// Writes an offset into bits 3 to 0; without an operand, the offset 0.
    pub fn encode_offset(word: u16, operand: Option<&Operand>) -> (r: Result<u16, EncodingError>)
        ensures
            word_view(r) == (match offset_field(view_of(operand)) {
                Ok(v) => write_field(word, 0, 4, v),
                Err(e) => Err(e),
            }),
    {
        match operand {
            Some(Operand::Offset(value)) => Self::encode_bits(word, 0, 4, value.encode() as u16),
            Some(Operand::Def(def)) => match def.value {
                Some(v) => {
                    if v >= 0 && v <= 7 {
                        Self::encode_bits(word, 0, 4, v as u16)
                    } else if v >= -8 && v < 0 {
                        Self::encode_bits(word, 0, 4, (v + 16) as u16)
                    } else {
                        Err(EncodingError::InvalidOffset(v))
                    }
                },
                None => Err(EncodingError::UnboundDefinition(def.name.clone())),
            },
            Some(other) => Err(
                EncodingError::InvalidOperand {
                    expected: "optional immediate".to_owned(),
                    found: other.duplicate(),
                },
            ),
            None => Self::encode_bits(word, 0, 4, 0),
        }
    }

    /// The operand, which must be there for a field of the given kind.
    fn present<'a>(operand: Option<&'a Operand>, expected: &str) -> (r: Result<
        &'a Operand,
        EncodingError,
    >)
        ensures
            match operand {
                Some(found) => r == Ok::<&Operand, EncodingError>(found),
                None => r matches Err(e) && e@ == (EncodingErrorView::MissingOperand {
                    expected: expected@,
                }),
            },
    {
        match operand {
            Some(found) => Ok(found),
            None => Err(EncodingError::MissingOperand { expected: expected.to_owned() }),
        }
    }

    /// The operand at `index`, if the list has that many.
    fn operand(operands: &Vec<Operand>, index: usize) -> (r: Option<&Operand>)
        ensures
            view_of(r) == operand_at(operands_view(operands@), index as int),
    {
        if index < operands.len() {
            Some(&operands[index])
        } else {
            None
        }
    }

    /// The word of an instruction without operands.
    fn plain(opcode: Opcode) -> (r: Result<u16, EncodingError>)
        requires
            opcode.is_real(),
        ensures
            word_view(r) == Ok::<u16, EncodingErrorView>(pack(opcode.spec_code(), 0, 0, 0)),
    {
        proof {
            lemma_write_operation(opcode.spec_code());
        }
        Self::encode_opcode(0, opcode)
    }

    /// The word of an operation on three registers.
    fn three_registers(
        opcode: Opcode,
        a: Option<&Operand>,
        b: Option<&Operand>,
        c: Option<&Operand>,
    ) -> (r: Result<u16, EncodingError>)
        requires
            opcode.is_real(),
        ensures
            word_view(r) == three_register_word(
                opcode.spec_code(),
                view_of(a),
                view_of(b),
                view_of(c),
            ),
    {
        proof {
            if let (Ok(ra), Ok(rb), Ok(rc)) = (
                register_slot(view_of(a)),
                register_slot(view_of(b)),
                register_slot(view_of(c)),
            ) {
                lemma_write_three(opcode.spec_code(), ra, rb, rc);
            }
            if let (Ok(ra), Ok(rb)) = (register_slot(view_of(a)), register_slot(view_of(b))) {
                lemma_write_three(opcode.spec_code(), ra, rb, 0);
            }
            if let Ok(ra) = register_slot(view_of(a)) {
                lemma_write_three(opcode.spec_code(), ra, 0, 0);
            }
            lemma_write_three(opcode.spec_code(), 0, 0, 0);
        }
        let word = Self::encode_opcode(0, opcode)?;
        let word = Self::encode_a(word, Self::present(a, "register")?)?;
        let word = Self::encode_b(word, Self::present(b, "register")?)?;
        Self::encode_c(word, Self::present(c, "register")?)
    }

    /// The word of an operation on two registers.
    fn two_registers(opcode: Opcode, a: Option<&Operand>, c: Option<&Operand>) -> (r: Result<
        u16,
        EncodingError,
    >)
        requires
            opcode.is_real(),
        ensures
            word_view(r) == two_register_word(opcode.spec_code(), view_of(a), view_of(c)),
    {
        proof {
            if let (Ok(ra), Ok(rc)) = (register_slot(view_of(a)), register_slot(view_of(c))) {
                lemma_write_outer(opcode.spec_code(), ra, rc);
            }
            if let Ok(ra) = register_slot(view_of(a)) {
                lemma_write_outer(opcode.spec_code(), ra, 0);
            }
            lemma_write_outer(opcode.spec_code(), 0, 0);
        }
        let word = Self::encode_opcode(0, opcode)?;
        let word = Self::encode_a(word, Self::present(a, "register")?)?;
        Self::encode_c(word, Self::present(c, "register")?)
    }

    /// The word of an operation on a register and an eight-bit value.
    fn register_immediate(
        opcode: Opcode,
        a: Option<&Operand>,
        value: Option<&Operand>,
    ) -> (r: Result<u16, EncodingError>)
        requires
            opcode.is_real(),
        ensures
            word_view(r) == immediate_word(opcode.spec_code(), view_of(a), view_of(value)),
    {
        proof {
            if let (Ok(ra), Ok(imm)) = (register_slot(view_of(a)), immediate_slot(view_of(value))) {
                lemma_write_immediate(opcode.spec_code(), ra, imm);
            }
            if let Ok(ra) = register_slot(view_of(a)) {
                lemma_write_immediate(opcode.spec_code(), ra, 0);
            }
            lemma_write_immediate(opcode.spec_code(), 0, 0);
        }
        let word = Self::encode_opcode(0, opcode)?;
        let word = Self::encode_a(word, Self::present(a, "register")?)?;
        Self::encode_imm(word, Self::present(value, "immediate")?)
    }

    /// The word of a jump or call.
    fn jump(opcode: Opcode, target: Option<&Operand>) -> (r: Result<u16, EncodingError>)
        requires
            opcode.is_real(),
        ensures
            word_view(r) == jump_word(opcode.spec_code(), view_of(target)),
    {
        proof {
            if let Ok(addr) = address_slot(view_of(target)) {
                lemma_write_address(opcode.spec_code(), addr);
            }
            lemma_write_address(opcode.spec_code(), 0);
        }
        let word = Self::encode_opcode(0, opcode)?;
        Self::encode_addr(word, Self::present(target, "address")?)
    }

    /// The word of a branch.
    fn branch(opcode: Opcode, cond: Option<&Operand>, target: Option<&Operand>) -> (r: Result<
        u16,
        EncodingError,
    >)
        requires
            opcode.is_real(),
        ensures
            word_view(r) == branch_word(opcode.spec_code(), view_of(cond), view_of(target)),
    {
        proof {
            if let (Ok(c), Ok(addr)) = (
                condition_slot(view_of(cond)),
                address_slot(view_of(target)),
            ) {
                lemma_write_branch(opcode.spec_code(), c, addr);
            }
            if let Ok(c) = condition_slot(view_of(cond)) {
                lemma_write_branch(opcode.spec_code(), c, 0);
            }
            lemma_write_branch(opcode.spec_code(), 0, 0);
        }
        let word = Self::encode_opcode(0, opcode)?;
        let word = Self::encode_cond(word, Self::present(cond, "condition")?)?;
        Self::encode_addr(word, Self::present(target, "address")?)
    }

    /// The word of a load or store.
    fn memory(
        opcode: Opcode,
        a: Option<&Operand>,
        b: Option<&Operand>,
        offset: Option<&Operand>,
    ) -> (r: Result<u16, EncodingError>)
        requires
            opcode.is_real(),
        ensures
            word_view(r) == memory_word(
                opcode.spec_code(),
                view_of(a),
                view_of(b),
                view_of(offset),
            ),
    {
        proof {
            if let (Ok(ra), Ok(rb), Ok(v)) = (
                register_slot(view_of(a)),
                register_slot(view_of(b)),
                offset_field(view_of(offset)),
            ) {
                lemma_write_three(opcode.spec_code(), ra, rb, v);
            }
            if let (Ok(ra), Ok(rb)) = (register_slot(view_of(a)), register_slot(view_of(b))) {
                lemma_write_three(opcode.spec_code(), ra, rb, 0);
            }
            if let Ok(ra) = register_slot(view_of(a)) {
                lemma_write_three(opcode.spec_code(), ra, 0, 0);
            }
            lemma_write_three(opcode.spec_code(), 0, 0, 0);
        }
        let word = Self::encode_opcode(0, opcode)?;
        let word = Self::encode_a(word, Self::present(a, "register")?)?;
        let word = Self::encode_b(word, Self::present(b, "register")?)?;
        Self::encode_offset(word, offset)
    }

    /// The word of one instruction; `None` for a marker.
    pub fn encode_instruction(instruction: &Instruction) -> (r: Result<Option<u16>, EncodingError>)
        ensures
            encoding_view(r) == encoded(instruction@),
    {
        let a = Self::operand(&instruction.operands, 0);
        let b = Self::operand(&instruction.operands, 1);
        let c = Self::operand(&instruction.operands, 2);
        let zero = Operand::Reg(Register::R0);
        let r0 = Some(&zero);
        let word = match instruction.opcode {
            Opcode::NOP | Opcode::HLT | Opcode::RET => Self::plain(instruction.opcode)?,
            Opcode::ADD | Opcode::SUB | Opcode::NOR | Opcode::AND | Opcode::XOR => {
                Self::three_registers(instruction.opcode, a, b, c)?
            },
            Opcode::RSH => Self::two_registers(instruction.opcode, a, b)?,
            Opcode::LDI | Opcode::ADI => Self::register_immediate(instruction.opcode, a, b)?,
            Opcode::JMP | Opcode::CAL => Self::jump(instruction.opcode, a)?,
            Opcode::BRH => Self::branch(instruction.opcode, a, b)?,
            Opcode::LOD | Opcode::STR => Self::memory(instruction.opcode, a, b, c)?,
            Opcode::CMP => Self::three_registers(Opcode::SUB, a, b, r0)?,
            Opcode::MOV => Self::three_registers(Opcode::ADD, a, r0, b)?,
            Opcode::LSH => Self::three_registers(Opcode::ADD, a, a, b)?,
            Opcode::INC => {
                let one = Operand::Imm(Immediate(1));
                Self::register_immediate(Opcode::ADI, a, Some(&one))?
            },
            Opcode::DEC => {
                let minus_one = Operand::Imm(Immediate(-1));
                Self::register_immediate(Opcode::ADI, a, Some(&minus_one))?
            },
            Opcode::NOT => Self::three_registers(Opcode::NOR, a, r0, b)?,
            Opcode::NEG => Self::three_registers(Opcode::SUB, r0, a, b)?,
            Opcode::_Label | Opcode::_Definition => {
                return Ok(None);
            },
        };
        Ok(Some(word))
    }

    /// Encodes every instruction of the program in place. Markers are left
    /// alone. At the first instruction that cannot be encoded the error is
    /// returned; the instructions before it keep their words.
    pub fn encode_program(&mut self, program: &mut Vec<Instruction>) -> (r: Result<
        (),
        EncodingError,
    >)
        ensures
            *final(self) == *old(self),
            final(program)@.len() == old(program)@.len(),
            program_view(final(program)@) == encoded_prefix(
                program_view(old(program)@),
                first_unencodable(program_view(old(program)@), 0),
            ),
            match encoded_program(program_view(old(program)@)) {
                Ok(done) => r is Ok && program_view(final(program)@) == done,
                Err(e) => r matches Err(x) && x@ == e,
            },
    {
        let ghost before = program_view(program@);
        let n = program.len();
        let mut i: usize = 0;
        while i < n
            invariant
                n == program@.len(),
                before.len() == n,
                before == program_view(old(program)@),
                old(program)@.len() == n,
                i <= n,
                first_unencodable(before, 0) == first_unencodable(before, i as int),
                program_view(program@) =~= encoded_prefix(before, i as int),
            decreases n - i,
        {
            let ghost at_entry = program@;
            assert(program_view(at_entry)[i as int] == encoded_prefix(before, i as int)[i as int]);
            assert(at_entry[i as int]@ == before[i as int]);
            let word = match Self::encode_instruction(&program[i]) {
                Ok(w) => w,
                Err(e) => {
                    return Err(e);
                },
            };
            if !program[i].opcode.is_marker_code() {
                program[i].encoding = word;
            }
            assert(program@[i as int]@ == with_encoding(before[i as int]));
            assert forall|j: int| 0 <= j < n implies program_view(program@)[j] == encoded_prefix(
                before,
                i + 1,
            )[j] by {
                if j != i {
                    assert(program@[j] == at_entry[j]);
                    assert(program_view(at_entry)[j] == encoded_prefix(before, i as int)[j]);
                }
            }
            i += 1;
        }
        Ok(())
    }
}

/// A value is below 1024 exactly where it fits ten bits.
pub proof fn lemma_ten_bits()
    ensures
        forall|v: u16| #![auto] fits(v, 10) == (v < 1024),
{
    assert forall|v: u16| #![auto] fits(v, 10) == (v < 1024) by {
        assert(((v >> 10u16) == 0) == (v < 1024)) by (bit_vector);
    }
}

/// Writing the operation into an empty word gives the word of an instruction
/// without operands.
pub proof fn lemma_write_operation(code: u16)
    requires
        code < 16,
    ensures
        fits(code, 4),
        set_field(0u16, 12, 4, code) == pack(code, 0, 0, 0),
{
    assert(code < 16 ==> (code >> 4u16) == 0) by (bit_vector);
    assert(code < 16 ==> ((0u16 & !((!(0xffffu16 << 4u16)) << 12u16)) | (code << 12u16)) == ((code << 12u16) | (0u16 << 8u16) | (0u16 << 4u16) | 0u16)) by (bit_vector);
}

/// Writing the operation and three four-bit fields into an empty word packs
/// them side by side.
pub proof fn lemma_write_three(code: u16, a: u16, b: u16, c: u16)
    requires
        code < 16,
        a < 16,
        b < 16,
        c < 16,
    ensures
        fits(code, 4),
        fits(a, 4),
        fits(b, 4),
        fits(c, 4),
        set_field(set_field(set_field(set_field(0u16, 12, 4, code), 8, 4, a), 4, 4, b), 0, 4, c) == pack(code, a, b, c),
{
    assert(code < 16 && a < 16 && b < 16 && c < 16 ==> (code >> 4u16) == 0) by (bit_vector);
    assert(code < 16 && a < 16 && b < 16 && c < 16 ==> (a >> 4u16) == 0) by (bit_vector);
    assert(code < 16 && a < 16 && b < 16 && c < 16 ==> (b >> 4u16) == 0) by (bit_vector);
    assert(code < 16 && a < 16 && b < 16 && c < 16 ==> (c >> 4u16) == 0) by (bit_vector);
    assert(code < 16 && a < 16 && b < 16 && c < 16 ==> ((((((((0u16 & !((!(0xffffu16 << 4u16)) << 12u16)) | (code << 12u16)) & !((!(0xffffu16 << 4u16)) << 8u16)) | (a << 8u16)) & !((!(0xffffu16 << 4u16)) << 4u16)) | (b << 4u16)) & !((!(0xffffu16 << 4u16)) << 0u16)) | (c << 0u16)) == ((code << 12u16) | (a << 8u16) | (b << 4u16) | c)) by (bit_vector);
}

/// Writing the operation and the first and third four-bit fields leaves the
/// second field empty.
pub proof fn lemma_write_outer(code: u16, a: u16, c: u16)
    requires
        code < 16,
        a < 16,
        c < 16,
    ensures
        fits(code, 4),
        fits(a, 4),
        fits(c, 4),
        set_field(set_field(set_field(0u16, 12, 4, code), 8, 4, a), 0, 4, c) == pack(code, a, 0, c),
{
    assert(code < 16 && a < 16 && c < 16 ==> (code >> 4u16) == 0) by (bit_vector);
    assert(code < 16 && a < 16 && c < 16 ==> (a >> 4u16) == 0) by (bit_vector);
    assert(code < 16 && a < 16 && c < 16 ==> (c >> 4u16) == 0) by (bit_vector);
    assert(code < 16 && a < 16 && c < 16 ==> ((((((0u16 & !((!(0xffffu16 << 4u16)) << 12u16)) | (code << 12u16)) & !((!(0xffffu16 << 4u16)) << 8u16)) | (a << 8u16)) & !((!(0xffffu16 << 4u16)) << 0u16)) | (c << 0u16)) == ((code << 12u16) | (a << 8u16) | (0u16 << 4u16) | c)) by (bit_vector);
}

/// Writing the operation, a register and an eight-bit value packs the value
/// into the low byte.
pub proof fn lemma_write_immediate(code: u16, a: u16, imm: u16)
    requires
        code < 16,
        a < 16,
        imm < 256,
    ensures
        fits(code, 4),
        fits(a, 4),
        fits(imm, 8),
        set_field(set_field(set_field(0u16, 12, 4, code), 8, 4, a), 0, 8, imm) == pack(code, a, 0, imm),
{
    assert(code < 16 && a < 16 && imm < 256 ==> (code >> 4u16) == 0) by (bit_vector);
    assert(code < 16 && a < 16 && imm < 256 ==> (a >> 4u16) == 0) by (bit_vector);
    assert(code < 16 && a < 16 && imm < 256 ==> (imm >> 8u16) == 0) by (bit_vector);
    assert(code < 16 && a < 16 && imm < 256 ==> ((((((0u16 & !((!(0xffffu16 << 4u16)) << 12u16)) | (code << 12u16)) & !((!(0xffffu16 << 4u16)) << 8u16)) | (a << 8u16)) & !((!(0xffffu16 << 8u16)) << 0u16)) | (imm << 0u16)) == ((code << 12u16) | (a << 8u16) | (0u16 << 4u16) | imm)) by (bit_vector);
}

/// Writing the operation and a ten-bit address leaves the condition field
/// empty.
pub proof fn lemma_write_address(code: u16, addr: u16)
    requires
        code < 16,
        addr < 1024,
    ensures
        fits(code, 4),
        fits(addr, 10),
        set_field(set_field(0u16, 12, 4, code), 0, 10, addr) == pack_branch(code, 0, addr),
{
    assert(code < 16 && addr < 1024 ==> (code >> 4u16) == 0) by (bit_vector);
    assert(code < 16 && addr < 1024 ==> (addr >> 10u16) == 0) by (bit_vector);
    assert(code < 16 && addr < 1024 ==> ((((0u16 & !((!(0xffffu16 << 4u16)) << 12u16)) | (code << 12u16)) & !((!(0xffffu16 << 10u16)) << 0u16)) | (addr << 0u16)) == ((code << 12u16) | (0u16 << 10u16) | addr)) by (bit_vector);
}

/// Writing the operation, a condition and a ten-bit address packs them side
/// by side.
pub proof fn lemma_write_branch(code: u16, cond: u16, addr: u16)
    requires
        code < 16,
        cond < 4,
        addr < 1024,
    ensures
        fits(code, 4),
        fits(cond, 2),
        fits(addr, 10),
        set_field(set_field(set_field(0u16, 12, 4, code), 10, 2, cond), 0, 10, addr) == pack_branch(code, cond, addr),
{
    assert(code < 16 && cond < 4 && addr < 1024 ==> (code >> 4u16) == 0) by (bit_vector);
    assert(code < 16 && cond < 4 && addr < 1024 ==> (cond >> 2u16) == 0) by (bit_vector);
    assert(code < 16 && cond < 4 && addr < 1024 ==> (addr >> 10u16) == 0) by (bit_vector);
    assert(code < 16 && cond < 4 && addr < 1024 ==> ((((((0u16 & !((!(0xffffu16 << 4u16)) << 12u16)) | (code << 12u16)) & !((!(0xffffu16 << 2u16)) << 10u16)) | (cond << 10u16)) & !((!(0xffffu16 << 10u16)) << 0u16)) | (addr << 0u16)) == ((code << 12u16) | (cond << 10u16) | addr)) by (bit_vector);
}

/// Every field of a word holds no more bits than it has room for.
pub proof fn lemma_field_bounds(operand: Option<OperandView>)
    ensures
        register_slot(operand) matches Ok(v) ==> v < 16,
        immediate_slot(operand) matches Ok(v) ==> v < 256,
        condition_slot(operand) matches Ok(v) ==> v < 4,
        address_slot(operand) matches Ok(v) ==> v < 1024,
        offset_field(operand) matches Ok(v) ==> v < 16,
{
}

/// The operation can be read back from the word of an instruction: its
/// highest four bits hold the code of the real operation that the
/// instruction stands for.
pub proof fn lemma_operation_field(inst: InstructionView)
    requires
        encoded(inst) is Ok,
        !inst.opcode.is_marker(),
    ensures
        encoded(inst) matches Ok(Some(word)) && (word >> 12) == real_form(
            inst,
        ).opcode.spec_code(),
        real_form(inst).opcode.is_real(),
{
    let form = real_form(inst);
    lemma_field_bounds(form.first);
    lemma_field_bounds(form.second);
    lemma_field_bounds(form.third);
    assert forall|c: u16, high: u16, middle: u16, low: u16|
        c < 16 && high < 16 && middle < 16 && low < 256 implies #[trigger] pack(
        c,
        high,
        middle,
        low,
    ) >> 12 == c by {
        assert(c < 16 && high < 16 && middle < 16 && low < 256 ==> ((c << 12u16) | (high << 8u16)
            | (middle << 4u16) | low) >> 12u16 == c) by (bit_vector);
    }
    assert forall|c: u16, cond: u16, addr: u16|
        c < 16 && cond < 4 && addr < 1024 implies #[trigger] pack_branch(c, cond, addr) >> 12
        == c by {
        assert(c < 16 && cond < 4 && addr < 1024 ==> ((c << 12u16) | (cond << 10u16) | addr)
            >> 12u16 == c) by (bit_vector);
    }
}

/// The fields of an operation on three registers can be read back from its
/// word: the operation from bits 15 to 12, the registers from bits 11 to 8,
/// 7 to 4 and 3 to 0.
pub proof fn lemma_register_fields(opcode: Opcode, a: Register, b: Register, c: Register)
    requires
        opcode == Opcode::ADD || opcode == Opcode::SUB || opcode == Opcode::NOR || opcode
            == Opcode::AND || opcode == Opcode::XOR,
    ensures
        ({
            let inst = InstructionView::fresh(
                opcode,
                seq![OperandView::Reg(a), OperandView::Reg(b), OperandView::Reg(c)],
            );
            &&& encoded(inst) matches Ok(Some(word))
            &&& word >> 12 == opcode.spec_code()
            &&& (word >> 8) & 0xf == a.spec_index()
            &&& (word >> 4) & 0xf == b.spec_index()
            &&& word & 0xf == c.spec_index()
        }),
{
    let code = opcode.spec_code();
    let ra = a.spec_index() as u16;
    let rb = b.spec_index() as u16;
    let rc = c.spec_index() as u16;
    assert(code < 16 && ra < 16 && rb < 16 && rc < 16 ==> {
        let word = (code << 12u16) | (ra << 8u16) | (rb << 4u16) | rc;
        &&& word >> 12u16 == code
        &&& (word >> 8u16) & 0xfu16 == ra
        &&& (word >> 4u16) & 0xfu16 == rb
        &&& word & 0xfu16 == rc
    }) by (bit_vector);
}

/// A macro is encoded as the real instruction that it stands for: `CMP a, b`
/// as `SUB a, b, r0`, `MOV a, b` as `ADD a, r0, b`, `LSH a, b` as
/// `ADD a, a, b`, `NOT a, b` as `NOR a, r0, b`, `NEG a, b` as `SUB r0, a, b`,
/// `INC a` as `ADI a, 1` and `DEC a` as `ADI a, -1`.
pub proof fn lemma_macros(a: OperandView, b: OperandView)
    ensures
        ({
            let r0 = OperandView::Reg(Register::R0);
            let one = OperandView::Imm(Immediate(1i16));
            let minus_one = OperandView::Imm(Immediate(-1i16));
            let of = |opcode: Opcode, operands: Seq<OperandView>|
                encoded(InstructionView::fresh(opcode, operands));
            &&& of(Opcode::CMP, seq![a, b]) == of(Opcode::SUB, seq![a, b, r0])
            &&& of(Opcode::MOV, seq![a, b]) == of(Opcode::ADD, seq![a, r0, b])
            &&& of(Opcode::LSH, seq![a, b]) == of(Opcode::ADD, seq![a, a, b])
            &&& of(Opcode::NOT, seq![a, b]) == of(Opcode::NOR, seq![a, r0, b])
            &&& of(Opcode::NEG, seq![a, b]) == of(Opcode::SUB, seq![r0, a, b])
            &&& of(Opcode::INC, seq![a]) == of(Opcode::ADI, seq![a, one])
            &&& of(Opcode::DEC, seq![a]) == of(Opcode::ADI, seq![a, minus_one])
        }),
{
}

/// In a program that can be encoded, every instruction can.
pub proof fn lemma_all_encodable(program: Seq<InstructionView>, from: int, index: int)
    requires
        0 <= from <= index < program.len(),
        first_unencodable(program, from) >= program.len(),
    ensures
        encoded(program[index]) is Ok,
    decreases index - from,
{
    if from < index {
        lemma_all_encodable(program, from + 1, index);
    }
}
} // verus!
