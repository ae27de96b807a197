//! References to labels.

use crate::immediate::Address;
use crate::instruction::Instruction;
use vstd::prelude::*;

verus! {

/// A reference to a label by name. The address is filled in when the program
/// is resolved.
#[derive(Debug, Clone, PartialEq)]
pub struct Label {
    pub name: String,
    pub address: Option<Address>,
}

/// What a label reference holds, the name as a sequence of characters.
pub struct LabelView {
    pub name: Seq<char>,
    pub address: Option<Address>,
}

impl View for Label {
    type V = LabelView;

    open spec fn view(&self) -> LabelView {
        LabelView { name: self.name@, address: self.address }
    }
}

impl Label {
    /// A reference that is not yet resolved.
    pub fn new(name: String) -> (r: Self)
        ensures
            r.name == name,
            r.address.is_none(),
    {
        Self { name, address: None }
    }

    /// Binds the reference to the place of the given instruction.
    pub fn set_address(&mut self, instruction: &Instruction)
        ensures
            final(self).name == old(self).name,
            final(self).address == instruction.location,
    {
        self.address = instruction.location;
    }

    /// The address that the reference is bound to, if it is resolved.
    pub fn get_address(&self) -> (r: Option<Address>)
        ensures
            r == self.address,
    {
        self.address
    }

    /// A copy of the reference.
    pub fn duplicate(&self) -> (r: Label)
        ensures
            r == *self,
    {
        Label { name: self.name.clone(), address: self.address }
    }
}

} // verus!
