//! The evaluator: puts the value of every named constant in the place of its
//! uses.
//!
//! A first pass collects the definitions into a table; where a name is defined
//! again, the later value counts. A second pass looks every use up in the table.

use crate::definition::{Definition, DefinitionView};
use crate::instruction::{program_view, Instruction, InstructionView};
use crate::opcode::Opcode;
use crate::operand::{operands_view, Operand, OperandView};
use vstd::prelude::*;

verus! {

/// Why a program could not be evaluated.
#[derive(Debug)]
pub enum EvaluatorError {
    /// A constant is used that is nowhere defined.
    UnknownDefinition(String),
    /// A definition declares a constant without a value.
    MissingDefinitionValue(String),
}

/// What an evaluator error holds, the name as a sequence of characters.
pub enum EvaluatorErrorView {
    UnknownDefinition(Seq<char>),
    MissingDefinitionValue(Seq<char>),
}

impl View for EvaluatorError {
    type V = EvaluatorErrorView;

    open spec fn view(&self) -> EvaluatorErrorView {
        match self {
            EvaluatorError::UnknownDefinition(name) => EvaluatorErrorView::UnknownDefinition(
                name@,
            ),
            EvaluatorError::MissingDefinitionValue(name) => {
                EvaluatorErrorView::MissingDefinitionValue(name@)
            },
        }
    }
}

/// A defined constant: its name and its value.
pub struct DefinitionEntry {
    pub name: String,
    pub value: i16,
}

/// What a table entry holds, the name as a sequence of characters.
pub struct DefinitionEntryView {
    pub name: Seq<char>,
    pub value: i16,
}

impl View for DefinitionEntry {
    type V = DefinitionEntryView;

    open spec fn view(&self) -> DefinitionEntryView {
        DefinitionEntryView { name: self.name@, value: self.value }
    }
}

/// The views of the entries of a table, in order.
pub open spec fn table_view(table: Seq<DefinitionEntry>) -> Seq<DefinitionEntryView> {
    Seq::new(table.len(), |i: int| table[i]@)
}

/// The constant that the instruction declares, if it declares one: it is a
/// definition marker whose first operand is a definition. A definition marker
/// of any other shape declares nothing.
pub open spec fn declared(inst: InstructionView) -> Option<DefinitionView> {
    if inst.opcode == Opcode::_Definition && inst.operands.len() > 0 && inst.operands[0] is Def {
        Some(inst.operands[0]->Def_0)
    } else {
        None
    }
}

/// The value of the last of the first `count` entries that has the name.
pub open spec fn find_value(table: Seq<DefinitionEntryView>, name: Seq<char>, count: int) -> Option<
    i16,
>
    decreases count,
{
    if count <= 0 || count > table.len() {
        None
    } else if table[count - 1].name == name {
        Some(table[count - 1].value)
    } else {
        find_value(table, name, count - 1)
    }
}

/// The value that the table gives the name.
pub open spec fn value_of(table: Seq<DefinitionEntryView>, name: Seq<char>) -> Option<i16> {
    find_value(table, name, table.len() as int)
}

/// The instruction declares a constant without a value.
pub open spec fn lacks_value(inst: InstructionView) -> bool {
    declared(inst) matches Some(def) && def.value is None
}

/// The table of the constants that the first `count` instructions define.
pub open spec fn definition_table(program: Seq<InstructionView>, count: int) -> Seq<
    DefinitionEntryView,
>
    decreases count,
{
    if count <= 0 {
        Seq::empty()
    } else {
        let table = definition_table(program, count - 1);
        match declared(program[count - 1]) {
            Some(def) => match def.value {
                Some(value) => table.push(DefinitionEntryView { name: def.name, value }),
                None => table,
            },
            None => table,
        }
    }
}

/// The index of the first definition from `from` on that has no value; the
/// length of the program where there is none.
pub open spec fn first_without_value(program: Seq<InstructionView>, from: int) -> int
    decreases program.len() - from,
{
    if from < 0 || from >= program.len() {
        program.len() as int
    } else if lacks_value(program[from]) {
        from
    } else {
        first_without_value(program, from + 1)
    }
}

/// The operand uses a constant that the table does not hold.
pub open spec fn unknown_use(table: Seq<DefinitionEntryView>, operand: OperandView) -> bool {
    operand matches OperandView::Def(def) && value_of(table, def.name) is None
}

/// The operand with the value of its constant; an operand that uses none is
/// left as it is.
pub open spec fn valued_operand(table: Seq<DefinitionEntryView>, operand: OperandView) -> OperandView {
    match operand {
        OperandView::Def(def) => match value_of(table, def.name) {
            Some(value) => OperandView::Def(
                DefinitionView { name: def.name, value: Some(value) },
            ),
            None => operand,
        },
        _ => operand,
    }
}

/// The index of the first operand from `from` on that uses an unknown
/// constant; the number of operands where there is none.
pub open spec fn first_unknown(
    table: Seq<DefinitionEntryView>,
    operands: Seq<OperandView>,
    from: int,
) -> int
    decreases operands.len() - from,
{
    if from < 0 || from >= operands.len() {
        operands.len() as int
    } else if unknown_use(table, operands[from]) {
        from
    } else {
        first_unknown(table, operands, from + 1)
    }
}

/// The uses of the instruction are looked up: those of all instructions but
/// definition markers are.
pub open spec fn has_uses(inst: InstructionView) -> bool {
    inst.opcode != Opcode::_Definition
}

/// The index of the first instruction from `from` on that uses an unknown
/// constant; the length of the program where there is none.
pub open spec fn first_unevaluable(
    table: Seq<DefinitionEntryView>,
    program: Seq<InstructionView>,
    from: int,
) -> int
    decreases program.len() - from,
{
    if from < 0 || from >= program.len() {
        program.len() as int
    } else if has_uses(program[from]) && first_unknown(table, program[from].operands, 0)
        < program[from].operands.len() {
        from
    } else {
        first_unevaluable(table, program, from + 1)
    }
}

/// The operands with the constants among the first `count` of them valued.
pub open spec fn valued_operands(
    table: Seq<DefinitionEntryView>,
    operands: Seq<OperandView>,
    count: int,
) -> Seq<OperandView> {
    Seq::new(
        operands.len(),
        |j: int|
            if j < count {
                valued_operand(table, operands[j])
            } else {
                operands[j]
            },
    )
}

/// The instruction with the values of its constants.
pub open spec fn evaluated_instruction(
    table: Seq<DefinitionEntryView>,
    inst: InstructionView,
) -> InstructionView {
    if has_uses(inst) {
        InstructionView {
            operands: valued_operands(table, inst.operands, inst.operands.len() as int),
            ..inst
        }
    } else {
        inst
    }
}

/// The program with the constants of its first `count` instructions valued.
pub open spec fn evaluated_prefix(
    table: Seq<DefinitionEntryView>,
    program: Seq<InstructionView>,
    count: int,
) -> Seq<InstructionView> {
    Seq::new(
        program.len(),
        |i: int|
            if i < count {
                evaluated_instruction(table, program[i])
            } else {
                program[i]
            },
    )
}

/// What evaluating makes of a program: every use with its value, or the error
/// of the first definition without a value, or else that of the first use of
/// an unknown constant.
pub open spec fn evaluated(program: Seq<InstructionView>) -> Result<
    Seq<InstructionView>,
    EvaluatorErrorView,
> {
    let len = program.len() as int;
    let bad = first_without_value(program, 0);
    let table = definition_table(program, len);
    let stuck = first_unevaluable(table, program, 0);
    if bad < len {
        Err(EvaluatorErrorView::MissingDefinitionValue(declared(program[bad])->Some_0.name))
    } else if stuck < len {
        let operands = program[stuck].operands;
        Err(
            EvaluatorErrorView::UnknownDefinition(
                operands[first_unknown(table, operands, 0)]->Def_0.name,
            ),
        )
    } else {
        Ok(evaluated_prefix(table, program, len))
    }
}

/// The value that the table gives the name.
pub fn lookup(table: &Vec<DefinitionEntry>, name: &String) -> (r: Option<i16>)
    ensures
        r == value_of(table_view(table@), name@),
{
    let mut k: usize = table.len();
    while k > 0
        invariant
            k <= table@.len(),
            value_of(table_view(table@), name@) == find_value(
                table_view(table@),
                name@,
                k as int,
            ),
        decreases k,
    {
        if table[k - 1].name == *name {
            return Some(table[k - 1].value);
        }
        k -= 1;
    }
    None
}

/// The table of the constants that the program defines.
pub fn find_definitions(program: &Vec<Instruction>) -> (r: Result<
    Vec<DefinitionEntry>,
    EvaluatorError,
>)
    ensures
        ({
            let views = program_view(program@);
            let bad = first_without_value(views, 0);
            match r {
                Ok(table) => bad == views.len() && table_view(table@) == definition_table(
                    views,
                    views.len() as int,
                ),
                Err(e) => bad < views.len() && e@ == EvaluatorErrorView::MissingDefinitionValue(
                    declared(views[bad])->Some_0.name,
                ),
            }
        }),
{
    let ghost views = program_view(program@);
    let mut table: Vec<DefinitionEntry> = Vec::new();
    let mut i: usize = 0;
    while i < program.len()
        invariant
            i <= program@.len(),
            views == program_view(program@),
            first_without_value(views, 0) == first_without_value(views, i as int),
            table_view(table@) =~= definition_table(views, i as int),
        decreases program@.len() - i,
    {
        assert(views[i as int] == program@[i as int]@);
        if program[i].opcode == Opcode::_Definition && program[i].operands.len() > 0 {
            if let Operand::Def(def) = &program[i].operands[0] {
                match def.value {
                    None => {
                        return Err(EvaluatorError::MissingDefinitionValue(def.name.clone()));
                    },
                    Some(value) => {
                        let ghost earlier = table_view(table@);
                        table.push(DefinitionEntry { name: def.name.clone(), value });
                        assert(table_view(table@) =~= earlier.push(
                            DefinitionEntryView { name: def.name@, value },
                        ));
                    },
                }
            }
        }
        i += 1;
    }
    Ok(table)
}

/// The first operand that uses a constant that the table does not hold, with
/// the name of that constant.
fn unknown_in(table: &Vec<DefinitionEntry>, operands: &Vec<Operand>) -> (r: Option<String>)
    ensures
        ({
            let views = operands_view(operands@);
            let stop = first_unknown(table_view(table@), views, 0);
            match r {
                Some(name) => stop < views.len() && views[stop] is Def
                    && views[stop]->Def_0.name == name@,
                None => stop == views.len(),
            }
        }),
{
    let ghost views = operands_view(operands@);
    let mut j: usize = 0;
    while j < operands.len()
        invariant
            j <= operands@.len(),
            views == operands_view(operands@),
            first_unknown(table_view(table@), views, 0) == first_unknown(
                table_view(table@),
                views,
                j as int,
            ),
        decreases operands@.len() - j,
    {
        assert(views[j as int] == operands@[j as int]@);
        if let Operand::Def(def) = &operands[j] {
            if lookup(table, &def.name).is_none() {
                return Some(def.name.clone());
            }
        }
        j += 1;
    }
    None
}

/// Looks every use of a constant up, and returns the error of the first one
/// that is unknown.
pub fn check_uses(table: &Vec<DefinitionEntry>, program: &Vec<Instruction>) -> (r: Result<
    (),
    EvaluatorError,
>)
    ensures
        ({
            let views = program_view(program@);
            let stuck = first_unevaluable(table_view(table@), views, 0);
            match r {
                Ok(_) => stuck == views.len(),
                Err(e) => stuck < views.len() && e@ == EvaluatorErrorView::UnknownDefinition(
                    views[stuck].operands[first_unknown(
                        table_view(table@),
                        views[stuck].operands,
                        0,
                    )]->Def_0.name,
                ),
            }
        }),
{
    let ghost views = program_view(program@);
    let mut i: usize = 0;
    while i < program.len()
        invariant
            i <= program@.len(),
            views == program_view(program@),
            first_unevaluable(table_view(table@), views, 0) == first_unevaluable(
                table_view(table@),
                views,
                i as int,
            ),
        decreases program@.len() - i,
    {
        assert(views[i as int] == program@[i as int]@);
        if program[i].opcode != Opcode::_Definition {
            if let Some(name) = unknown_in(table, &program[i].operands) {
                return Err(EvaluatorError::UnknownDefinition(name));
            }
        }
        i += 1;
    }
    Ok(())
}

/// Puts the values of the constants among the operands in their places.
fn value_operands(table: &Vec<DefinitionEntry>, operands: &mut Vec<Operand>)
    ensures
        final(operands)@.len() == old(operands)@.len(),
        operands_view(final(operands)@) == valued_operands(
            table_view(table@),
            operands_view(old(operands)@),
            old(operands)@.len() as int,
        ),
{
    let ghost before = operands_view(operands@);
    let n = operands.len();
    let mut j: usize = 0;
    while j < n
        invariant
            j <= n,
            n == operands@.len(),
            before.len() == n,
            before == operands_view(old(operands)@),
            operands_view(operands@) =~= valued_operands(table_view(table@), before, j as int),
        decreases n - j,
    {
        let ghost at_entry = operands@;
        assert(operands_view(at_entry)[j as int] == valued_operands(
            table_view(table@),
            before,
            j as int,
        )[j as int]);
        assert(at_entry[j as int]@ == before[j as int]);
        let valued = match &operands[j] {
            Operand::Def(def) => match lookup(table, &def.name) {
                Some(value) => Some(
                    Operand::Def(Definition { name: def.name.clone(), value: Some(value) }),
                ),
                None => None,
            },
            _ => None,
        };
        if let Some(operand) = valued {
            operands[j] = operand;
        }
        assert(operands@[j as int]@ == valued_operand(table_view(table@), before[j as int]));
        assert forall|k: int| 0 <= k < n implies operands_view(operands@)[k] == valued_operands(
            table_view(table@),
            before,
            j + 1,
        )[k] by {
            if k != j {
                assert(operands@[k] == at_entry[k]);
                assert(operands_view(at_entry)[k] == valued_operands(
                    table_view(table@),
                    before,
                    j as int,
                )[k]);
            }
        }
        j += 1;
    }
}

/// Puts the value that the table gives in the place of every use of a
/// constant in the instruction. A definition marker is left as it is.
pub fn evaluate_instruction(instruction: &mut Instruction, table: &Vec<DefinitionEntry>)
    ensures
        final(instruction)@ == evaluated_instruction(table_view(table@), old(instruction)@),
{
    if instruction.opcode != Opcode::_Definition {
        value_operands(table, &mut instruction.operands);
        assert(operands_view(instruction.operands@) =~= valued_operands(
            table_view(table@),
            old(instruction)@.operands,
            old(instruction)@.operands.len() as int,
        ));
    }
}

/// Puts the values of the constants in the places of their uses, all over
/// the program.
pub fn value_uses(table: &Vec<DefinitionEntry>, program: &mut Vec<Instruction>)
    ensures
        final(program)@.len() == old(program)@.len(),
        program_view(final(program)@) == evaluated_prefix(
            table_view(table@),
            program_view(old(program)@),
            old(program)@.len() as int,
        ),
{
    let ghost before = program_view(program@);
    let n = program.len();
    let mut i: usize = 0;
    while i < n
        invariant
            i <= n,
            n == program@.len(),
            before.len() == n,
            before == program_view(old(program)@),
            program_view(program@) =~= evaluated_prefix(table_view(table@), before, i as int),
        decreases n - i,
    {
        let ghost at_entry = program@;
        assert(program_view(at_entry)[i as int] == evaluated_prefix(
            table_view(table@),
            before,
            i as int,
        )[i as int]);
        assert(at_entry[i as int]@ == before[i as int]);
        evaluate_instruction(&mut program[i], table);
        assert forall|k: int| 0 <= k < n implies program_view(program@)[k] == evaluated_prefix(
            table_view(table@),
            before,
            i + 1,
        )[k] by {
            if k != i {
                assert(program@[k] == at_entry[k]);
                assert(program_view(at_entry)[k] == evaluated_prefix(
                    table_view(table@),
                    before,
                    i as int,
                )[k]);
            }
        }
        i += 1;
    }
}

/// Evaluates the program in place. Where it cannot be evaluated, the error is
/// returned and the program is left as it was.
pub fn evaluate_program(program: &mut Vec<Instruction>) -> (r: Result<(), EvaluatorError>)
    ensures
        final(program)@.len() == old(program)@.len(),
        match evaluated(program_view(old(program)@)) {
            Ok(done) => r is Ok && program_view(final(program)@) == done,
            Err(e) => r matches Err(x) && x@ == e && final(program)@ == old(program)@,
        },
{
    let table = find_definitions(program)?;
    check_uses(&table, program)?;
    value_uses(&table, program);
    Ok(())
}

/// The instruction defines a constant that the table already holds.
pub open spec fn redefines(table: Seq<DefinitionEntryView>, inst: InstructionView) -> bool {
    declared(inst) matches Some(def) && def.value is Some && value_of(table, def.name) is Some
}

/// The index of the first definition from `from` on that defines a constant
/// again; the length of the program where there is none.
pub open spec fn first_redefinition(program: Seq<InstructionView>, from: int) -> int
    decreases program.len() - from,
{
    if from < 0 || from >= program.len() {
        program.len() as int
    } else if redefines(definition_table(program, from), program[from]) {
        from
    } else {
        first_redefinition(program, from + 1)
    }
}

/// The first definition of the program that defines a constant again. Such a
/// definition is no error: its value takes the place of the earlier one.
pub fn find_redefinition(program: &Vec<Instruction>) -> (r: Option<usize>)
    ensures
        match r {
            Some(index) => index < program@.len() && first_redefinition(
                program_view(program@),
                0,
            ) == index,
            None => first_redefinition(program_view(program@), 0) == program@.len(),
        },
{
    let ghost views = program_view(program@);
    let mut table: Vec<DefinitionEntry> = Vec::new();
    let mut i: usize = 0;
    while i < program.len()
        invariant
            i <= program@.len(),
            views == program_view(program@),
            first_redefinition(views, 0) == first_redefinition(views, i as int),
            table_view(table@) =~= definition_table(views, i as int),
        decreases program@.len() - i,
    {
        assert(views[i as int] == program@[i as int]@);
        if program[i].opcode == Opcode::_Definition && program[i].operands.len() > 0 {
            if let Operand::Def(def) = &program[i].operands[0] {
                if let Some(value) = def.value {
                    if lookup(&table, &def.name).is_some() {
                        return Some(i);
                    }
                    let ghost earlier = table_view(table@);
                    table.push(DefinitionEntry { name: def.name.clone(), value });
                    assert(table_view(table@) =~= earlier.push(
                        DefinitionEntryView { name: def.name@, value },
                    ));
                }
            }
        }
        i += 1;
    }
    None
}
} // verus!
