//! Operands of instructions.

use crate::condition::Condition;
use crate::definition::{Definition, DefinitionView};
use crate::immediate::{Address, Immediate, Offset};
use crate::label::{Label, LabelView};
use crate::port::Port;
use crate::register::Register;
use vstd::prelude::*;

verus! {

/// An operand, one variant for each kind that the language knows.
#[derive(Debug, Clone, PartialEq)]
pub enum Operand {
    /// A register.
    Reg(Register),
    /// An eight-bit literal.
    Imm(Immediate),
    /// The address of an instruction.
    Addr(Address),
    /// The displacement of a load or store.
    Offset(Offset),
    /// The condition of a branch.
    Cond(Condition),
    /// A reference to a label.
    Label(Label),
    /// A character, which stands for its code.
    Char(char),
    /// A named constant: declared, or used in place of a literal.
    Def(Definition),
    /// A port, which stands for its address.
    Port(Port),
    /// The name that a label marker declares.
    Name(String),
}

/// What an operand holds, names as sequences of characters.
pub enum OperandView {
    Reg(Register),
    Imm(Immediate),
    Addr(Address),
    Offset(Offset),
    Cond(Condition),
    Label(LabelView),
    Char(char),
    Def(DefinitionView),
    Port(Port),
    Name(Seq<char>),
}

impl View for Operand {
    type V = OperandView;

    open spec fn view(&self) -> OperandView {
        match self {
            Operand::Reg(r) => OperandView::Reg(*r),
            Operand::Imm(i) => OperandView::Imm(*i),
            Operand::Addr(a) => OperandView::Addr(*a),
            Operand::Offset(o) => OperandView::Offset(*o),
            Operand::Cond(c) => OperandView::Cond(*c),
            Operand::Label(l) => OperandView::Label(l@),
            Operand::Char(c) => OperandView::Char(*c),
            Operand::Def(d) => OperandView::Def(d@),
            Operand::Port(p) => OperandView::Port(*p),
            Operand::Name(n) => OperandView::Name(n@),
        }
    }
}

/// The views of a list of operands, in order.
pub open spec fn operands_view(operands: Seq<Operand>) -> Seq<OperandView> {
    Seq::new(operands.len(), |i: int| operands[i]@)
}

impl Operand {
    /// A copy of the operand.
    pub fn duplicate(&self) -> (r: Operand)
        ensures
            r == *self,
    {
        match self {
            Operand::Reg(r) => Operand::Reg(*r),
            Operand::Imm(i) => Operand::Imm(*i),
            Operand::Addr(a) => Operand::Addr(*a),
            Operand::Offset(o) => Operand::Offset(*o),
            Operand::Cond(c) => Operand::Cond(*c),
            Operand::Label(l) => Operand::Label(l.duplicate()),
            Operand::Char(c) => Operand::Char(*c),
            Operand::Def(d) => Operand::Def(d.duplicate()),
            Operand::Port(p) => Operand::Port(*p),
            Operand::Name(n) => Operand::Name(n.clone()),
        }
    }
}

} // verus!
