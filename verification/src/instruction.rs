//! Instructions: a mnemonic with its operands, and what the later passes add.

use crate::condition::Condition;
use crate::definition::Definition;
use crate::immediate::{Address, Immediate, Offset};
use crate::label::Label;
use crate::opcode::Opcode;
use crate::operand::{operands_view, Operand, OperandView};
use crate::port::Port;
use crate::register::Register;
use vstd::prelude::*;

verus! {

/// One entry of a program. `location` is set when the program is laid out,
/// `encoding` when it is encoded; markers never get an encoding.
#[derive(Debug, Clone, PartialEq)]
pub struct Instruction {
    pub opcode: Opcode,
    pub operands: Vec<Operand>,
    pub location: Option<Address>,
    pub encoding: Option<u16>,
}

/// What an instruction holds, its operands by their views.
pub struct InstructionView {
    pub opcode: Opcode,
    pub operands: Seq<OperandView>,
    pub location: Option<Address>,
    pub encoding: Option<u16>,
}

impl View for Instruction {
    type V = InstructionView;

    open spec fn view(&self) -> InstructionView {
        InstructionView {
            opcode: self.opcode,
            operands: operands_view(self.operands@),
            location: self.location,
            encoding: self.encoding,
        }
    }
}

/// The views of the instructions of a program, in order.
pub open spec fn program_view(program: Seq<Instruction>) -> Seq<InstructionView> {
    Seq::new(program.len(), |i: int| program[i]@)
}

impl InstructionView {
    /// An instruction of the given mnemonic and operands that no pass has
    /// touched yet.
    pub open spec fn fresh(opcode: Opcode, operands: Seq<OperandView>) -> InstructionView {
        InstructionView { opcode, operands, location: None, encoding: None }
    }

    /// The instruction with one more operand at the end.
    pub open spec fn with_operand(self, operand: OperandView) -> InstructionView {
        InstructionView { operands: self.operands.push(operand), ..self }
    }
}

impl Instruction {
    /// An instruction without operands, not yet laid out or encoded.
    pub fn new(opcode: Opcode) -> (r: Instruction)
        ensures
            r@ == InstructionView::fresh(opcode, Seq::empty()),
            r.operands@.len() == 0,
    {
        let r = Instruction { opcode, operands: Vec::new(), location: None, encoding: None };
        assert(operands_view(r.operands@) =~= Seq::empty());
        r
    }

    /// Appends an operand.
    pub fn add_operand(&mut self, operand: Operand)
        ensures
            final(self).opcode == old(self).opcode,
            final(self).operands@ == old(self).operands@.push(operand),
            final(self).location == old(self).location,
            final(self).encoding == old(self).encoding,
            final(self)@ == old(self)@.with_operand(operand@),
    {
        self.operands.push(operand);
        assert(operands_view(self.operands@) =~= operands_view(old(self).operands@).push(
            operand@,
        ));
    }

    /// Appends a register operand.
    pub fn add_register(&mut self, reg: Register)
        ensures
            final(self)@ == old(self)@.with_operand(OperandView::Reg(reg)),
            final(self).operands@ == old(self).operands@.push(Operand::Reg(reg)),
    {
        self.add_operand(Operand::Reg(reg));
    }

    /// Appends a condition operand.
    pub fn add_condition(&mut self, cond: Condition)
        ensures
            final(self)@ == old(self)@.with_operand(OperandView::Cond(cond)),
            final(self).operands@ == old(self).operands@.push(Operand::Cond(cond)),
    {
        self.add_operand(Operand::Cond(cond));
    }

    /// Appends an immediate operand.
    pub fn add_immediate(&mut self, imm: Immediate)
        ensures
            final(self)@ == old(self)@.with_operand(OperandView::Imm(imm)),
            final(self).operands@ == old(self).operands@.push(Operand::Imm(imm)),
    {
        self.add_operand(Operand::Imm(imm));
    }

    /// Appends the name that a label marker declares.
    pub fn add_label_name(&mut self, name: String)
        ensures
            final(self)@ == old(self)@.with_operand(OperandView::Name(name@)),
            final(self).operands@ == old(self).operands@.push(Operand::Name(name)),
    {
        self.add_operand(Operand::Name(name));
    }

    /// Appends a definition operand.
    pub fn add_definition(&mut self, def: Definition)
        ensures
            final(self)@ == old(self)@.with_operand(OperandView::Def(def@)),
            final(self).operands@ == old(self).operands@.push(Operand::Def(def)),
    {
        self.add_operand(Operand::Def(def));
    }

    /// Appends a label reference.
    pub fn add_label(&mut self, label: Label)
        ensures
            final(self)@ == old(self)@.with_operand(OperandView::Label(label@)),
            final(self).operands@ == old(self).operands@.push(Operand::Label(label)),
    {
        self.add_operand(Operand::Label(label));
    }

    /// Appends a port operand.
    pub fn add_port(&mut self, port: Port)
        ensures
            final(self)@ == old(self)@.with_operand(OperandView::Port(port)),
            final(self).operands@ == old(self).operands@.push(Operand::Port(port)),
    {
        self.add_operand(Operand::Port(port));
    }

    /// Appends an address operand.
    pub fn add_address(&mut self, addr: Address)
        ensures
            final(self)@ == old(self)@.with_operand(OperandView::Addr(addr)),
            final(self).operands@ == old(self).operands@.push(Operand::Addr(addr)),
    {
        self.add_operand(Operand::Addr(addr));
    }

    /// Appends a character operand.
    pub fn add_character(&mut self, ch: char)
        ensures
            final(self)@ == old(self)@.with_operand(OperandView::Char(ch)),
            final(self).operands@ == old(self).operands@.push(Operand::Char(ch)),
    {
        self.add_operand(Operand::Char(ch));
    }

    /// Appends an offset operand.
    pub fn add_offset(&mut self, i4: Offset)
        ensures
            final(self)@ == old(self)@.with_operand(OperandView::Offset(i4)),
            final(self).operands@ == old(self).operands@.push(Operand::Offset(i4)),
    {
        self.add_operand(Operand::Offset(i4));
    }
}

} // verus!
