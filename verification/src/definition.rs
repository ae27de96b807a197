//! Named constants.

use crate::keywords::{is_keyword, reserved};
use vstd::prelude::*;
use vstd::string::StringSliceAdditionalSpecFns;

verus! {

/// A named constant: where it is declared it carries its value, where it is
/// used the value is filled in when the program is evaluated.
#[derive(Debug, Clone, PartialEq)]
pub struct Definition {
    pub name: String,
    pub value: Option<i16>,
}

/// What a definition holds, the name as a sequence of characters.
pub struct DefinitionView {
    pub name: Seq<char>,
    pub value: Option<i16>,
}

impl View for Definition {
    type V = DefinitionView;

    open spec fn view(&self) -> DefinitionView {
        DefinitionView { name: self.name@, value: self.value }
    }
}

/// A definition may take the name: it is not empty and no reserved word.
pub open spec fn name_allowed(name: &str) -> bool {
    name@.len() > 0 && !is_keyword(name.spec_bytes())
}

impl Definition {
    /// The declaration of a constant. `None` where the name is empty or a
    /// reserved word, or the value lies outside -128 to 255.
    pub fn new_def(name: &str, value: i16) -> (r: Option<Definition>)
        ensures
            r.is_some() == (name_allowed(name) && -128 <= value <= 255),
            r matches Some(d) ==> d@ == (DefinitionView { name: name@, value: Some(value) }),
    {
        let bytes = name.as_bytes();
        assert(bytes@.subrange(0, bytes@.len() as int) =~= bytes@);
        if name.is_empty() || reserved(bytes, 0, bytes.len()) {
            return None;
        }
        if value < -128 || value > 255 {
            None
        } else {
            Some(Definition { name: name.to_owned(), value: Some(value) })
        }
    }

    /// A use of a constant, its value not yet known. `None` where the name is
    /// empty or a reserved word.
    pub fn new_opr(name: &str) -> (r: Option<Definition>)
        ensures
            r.is_some() == name_allowed(name),
            r matches Some(d) ==> d@ == (DefinitionView { name: name@, value: None }),
    {
        let bytes = name.as_bytes();
        assert(bytes@.subrange(0, bytes@.len() as int) =~= bytes@);
        if name.is_empty() || reserved(bytes, 0, bytes.len()) {
            None
        } else {
            Some(Definition { name: name.to_owned(), value: None })
        }
    }

    /// A copy of the definition.
    pub fn duplicate(&self) -> (r: Definition)
        ensures
            r == *self,
    {
        Definition { name: self.name.clone(), value: self.value }
    }
}

} // verus!
