//! The resolver: binds every reference to a label to the place of that label.
//!
//! A first pass collects the label markers into a table and refuses a name
//! that is declared twice. A second pass looks every reference up in the table.

use crate::immediate::Address;
use crate::instruction::{program_view, Instruction, InstructionView};
use crate::label::{Label, LabelView};
use crate::opcode::Opcode;
use crate::operand::{operands_view, Operand, OperandView};
use vstd::prelude::*;

verus! {

/// Why a program could not be resolved.
#[derive(Debug)]
pub enum ResolveError {
    /// The label is declared a second time.
    InvalidLabel(String),
    /// A reference names a label that is nowhere declared.
    UnknownLabel(String),
    /// The label marker has no place: the program was not laid out.
    MissingAddress(String),
}

/// What a resolve error holds, the name as a sequence of characters.
pub enum ResolveErrorView {
    InvalidLabel(Seq<char>),
    UnknownLabel(Seq<char>),
    MissingAddress(Seq<char>),
}

impl View for ResolveError {
    type V = ResolveErrorView;

    open spec fn view(&self) -> ResolveErrorView {
        match self {
            ResolveError::InvalidLabel(name) => ResolveErrorView::InvalidLabel(name@),
            ResolveError::UnknownLabel(name) => ResolveErrorView::UnknownLabel(name@),
            ResolveError::MissingAddress(name) => ResolveErrorView::MissingAddress(name@),
        }
    }
}

/// A declared label: its name and the place of its marker.
pub struct LabelEntry {
    pub name: String,
    pub address: Address,
}

/// What a table entry holds, the name as a sequence of characters.
pub struct LabelEntryView {
    pub name: Seq<char>,
    pub address: Address,
}

impl View for LabelEntry {
    type V = LabelEntryView;

    open spec fn view(&self) -> LabelEntryView {
        LabelEntryView { name: self.name@, address: self.address }
    }
}

/// The views of the entries of a table, in order.
pub open spec fn table_view(table: Seq<LabelEntry>) -> Seq<LabelEntryView> {
    Seq::new(table.len(), |i: int| table[i]@)
}

/// The name that the instruction declares, if it declares one: it is a label
/// marker whose first operand is a name. A label marker of any other shape
/// declares nothing.
pub open spec fn declared_label(inst: InstructionView) -> Option<Seq<char>> {
    if inst.opcode == Opcode::_Label && inst.operands.len() > 0 && inst.operands[0] is Name {
        Some(inst.operands[0]->Name_0)
    } else {
        None
    }
}

/// The index of the first entry from `from` on that has the name.
pub open spec fn find_entry(table: Seq<LabelEntryView>, name: Seq<char>, from: int) -> Option<
    int,
>
    decreases table.len() - from,
{
    if from < 0 || from >= table.len() {
        None
    } else if table[from].name == name {
        Some(from)
    } else {
        find_entry(table, name, from + 1)
    }
}

/// What stands in the way of a declaration, given the table of the labels
/// declared before it: its name is taken, or it has no place.
pub open spec fn declaration_error(
    table: Seq<LabelEntryView>,
    inst: InstructionView,
) -> Option<ResolveErrorView> {
    match declared_label(inst) {
        None => None,
        Some(name) => if find_entry(table, name, 0) is Some {
            Some(ResolveErrorView::InvalidLabel(name))
        } else if inst.location is None {
            Some(ResolveErrorView::MissingAddress(name))
        } else {
            None
        },
    }
}

/// The table of the labels that the first `count` instructions declare, as far
/// as it gets: it ends before the first declaration that is refused.
pub open spec fn label_table(program: Seq<InstructionView>, count: int) -> Seq<LabelEntryView>
    decreases count,
{
    if count <= 0 {
        Seq::empty()
    } else {
        let table = label_table(program, count - 1);
        let inst = program[count - 1];
        if declared_label(inst) is Some && declaration_error(table, inst) is None {
            table.push(
                LabelEntryView {
                    name: declared_label(inst)->Some_0,
                    address: inst.location->Some_0,
                },
            )
        } else {
            table
        }
    }
}

/// The index of the first declaration from `from` on that is refused; the
/// length of the program where there is none.
pub open spec fn first_bad_declaration(program: Seq<InstructionView>, from: int) -> int
    decreases program.len() - from,
{
    if from < 0 || from >= program.len() {
        program.len() as int
    } else if declaration_error(label_table(program, from), program[from]) is Some {
        from
    } else {
        first_bad_declaration(program, from + 1)
    }
}

/// The operand refers to a label that the table does not hold.
pub open spec fn unknown_reference(table: Seq<LabelEntryView>, operand: OperandView) -> bool {
    operand matches OperandView::Label(label) && find_entry(table, label.name, 0) is None
}

/// The operand with its reference bound; an operand that is no reference is
/// left as it is.
pub open spec fn bound_operand(table: Seq<LabelEntryView>, operand: OperandView) -> OperandView {
    match operand {
        OperandView::Label(label) => match find_entry(table, label.name, 0) {
            Some(k) => OperandView::Label(
                LabelView { name: label.name, address: Some(table[k].address) },
            ),
            None => operand,
        },
        _ => operand,
    }
}

/// The index of the first operand from `from` on with an unknown reference;
/// the number of operands where there is none.
pub open spec fn first_unknown(
    table: Seq<LabelEntryView>,
    operands: Seq<OperandView>,
    from: int,
) -> int
    decreases operands.len() - from,
{
    if from < 0 || from >= operands.len() {
        operands.len() as int
    } else if unknown_reference(table, operands[from]) {
        from
    } else {
        first_unknown(table, operands, from + 1)
    }
}

/// The references of the instruction are looked up: those of all instructions
/// but label markers are.
pub open spec fn has_references(inst: InstructionView) -> bool {
    inst.opcode != Opcode::_Label
}

/// The index of the first instruction from `from` on with an unknown
/// reference; the length of the program where there is none.
pub open spec fn first_unresolvable(
    table: Seq<LabelEntryView>,
    program: Seq<InstructionView>,
    from: int,
) -> int
    decreases program.len() - from,
{
    if from < 0 || from >= program.len() {
        program.len() as int
    } else if has_references(program[from]) && first_unknown(table, program[from].operands, 0)
        < program[from].operands.len() {
        from
    } else {
        first_unresolvable(table, program, from + 1)
    }
}

/// The operands with the references among the first `count` of them bound.
pub open spec fn bound_operands(
    table: Seq<LabelEntryView>,
    operands: Seq<OperandView>,
    count: int,
) -> Seq<OperandView> {
    Seq::new(
        operands.len(),
        |j: int|
            if j < count {
                bound_operand(table, operands[j])
            } else {
                operands[j]
            },
    )
}

/// The instruction with its references bound.
pub open spec fn resolved_instruction(
    table: Seq<LabelEntryView>,
    inst: InstructionView,
) -> InstructionView {
    if has_references(inst) {
        InstructionView {
            operands: bound_operands(table, inst.operands, inst.operands.len() as int),
            ..inst
        }
    } else {
        inst
    }
}

/// The program with the references of its first `count` instructions bound.
pub open spec fn resolved_prefix(
    table: Seq<LabelEntryView>,
    program: Seq<InstructionView>,
    count: int,
) -> Seq<InstructionView> {
    Seq::new(
        program.len(),
        |i: int|
            if i < count {
                resolved_instruction(table, program[i])
            } else {
                program[i]
            },
    )
}

/// What resolving makes of a program: every reference bound, or the error of
/// the first declaration that is refused, or else that of the first reference
/// that is unknown.
pub open spec fn resolved(program: Seq<InstructionView>) -> Result<
    Seq<InstructionView>,
    ResolveErrorView,
> {
    let len = program.len() as int;
    let bad = first_bad_declaration(program, 0);
    let table = label_table(program, len);
    let stuck = first_unresolvable(table, program, 0);
    if bad < len {
        Err(declaration_error(label_table(program, bad), program[bad])->Some_0)
    } else if stuck < len {
        let operands = program[stuck].operands;
        Err(
            ResolveErrorView::UnknownLabel(
                operands[first_unknown(table, operands, 0)]->Label_0.name,
            ),
        )
    } else {
        Ok(resolved_prefix(table, program, len))
    }
}

/// The first entry of the table that has the name.
pub fn find_label(table: &Vec<LabelEntry>, name: &String) -> (r: Option<usize>)
    ensures
        match r {
            Some(k) => find_entry(table_view(table@), name@, 0) == Some(k as int) && k
                < table@.len(),
            None => find_entry(table_view(table@), name@, 0) is None,
        },
{
    let mut k: usize = 0;
    while k < table.len()
        invariant
            k <= table@.len(),
            find_entry(table_view(table@), name@, 0) == find_entry(
                table_view(table@),
                name@,
                k as int,
            ),
        decreases table@.len() - k,
    {
        if table[k].name == *name {
            return Some(k);
        }
        k += 1;
    }
    None
}

/// The name that the instruction declares, if it declares one.
fn name_of(inst: &Instruction) -> (r: Option<String>)
    ensures
        match r {
            Some(name) => declared_label(inst@) == Some(name@),
            None => declared_label(inst@) is None,
        },
{
    if inst.opcode == Opcode::_Label && inst.operands.len() > 0 {
        match &inst.operands[0] {
            Operand::Name(name) => Some(name.clone()),
            _ => None,
        }
    } else {
        None
    }
}

/// The table of the labels that the program declares.
pub fn collect_labels(program: &Vec<Instruction>) -> (r: Result<Vec<LabelEntry>, ResolveError>)
    ensures
        ({
            let views = program_view(program@);
            let bad = first_bad_declaration(views, 0);
            match r {
                Ok(table) => bad == views.len() && table_view(table@) == label_table(
                    views,
                    views.len() as int,
                ),
                Err(e) => bad < views.len() && Some(e@) == declaration_error(
                    label_table(views, bad),
                    views[bad],
                ),
            }
        }),
{
    let ghost views = program_view(program@);
    let mut table: Vec<LabelEntry> = Vec::new();
    let mut i: usize = 0;
    while i < program.len()
        invariant
            i <= program@.len(),
            views == program_view(program@),
            first_bad_declaration(views, 0) == first_bad_declaration(views, i as int),
            table_view(table@) =~= label_table(views, i as int),
        decreases program@.len() - i,
    {
        assert(views[i as int] == program@[i as int]@);
        if let Some(name) = name_of(&program[i]) {
            if find_label(&table, &name).is_some() {
                return Err(ResolveError::InvalidLabel(name));
            }
            match program[i].location {
                None => {
                    return Err(ResolveError::MissingAddress(name));
                },
                Some(address) => {
                    let ghost earlier = table_view(table@);
                    table.push(LabelEntry { name, address });
                    assert(table_view(table@) =~= earlier.push(
                        LabelEntryView { name: name@, address },
                    ));
                },
            }
        }
        i += 1;
    }
    Ok(table)
}

/// The first operand with a reference that the table does not hold, with the
/// name that it refers to.
fn unknown_in(table: &Vec<LabelEntry>, operands: &Vec<Operand>) -> (r: Option<String>)
    ensures
        ({
            let views = operands_view(operands@);
            let stop = first_unknown(table_view(table@), views, 0);
            match r {
                Some(name) => stop < views.len() && views[stop] is Label
                    && views[stop]->Label_0.name == name@,
                None => stop == views.len(),
            }
        }),
{
    let ghost views = operands_view(operands@);
    let mut j: usize = 0;
    while j < operands.len()
        invariant
            j <= operands@.len(),
            views == operands_view(operands@),
            first_unknown(table_view(table@), views, 0) == first_unknown(
                table_view(table@),
                views,
                j as int,
            ),
        decreases operands@.len() - j,
    {
        assert(views[j as int] == operands@[j as int]@);
        if let Operand::Label(label) = &operands[j] {
            if find_label(table, &label.name).is_none() {
                return Some(label.name.clone());
            }
        }
        j += 1;
    }
    None
}

/// Looks every reference of the program up, and returns the error of the first
/// one that is unknown.
pub fn check_references(table: &Vec<LabelEntry>, program: &Vec<Instruction>) -> (r: Result<
    (),
    ResolveError,
>)
    ensures
        ({
            let views = program_view(program@);
            let stuck = first_unresolvable(table_view(table@), views, 0);
            match r {
                Ok(_) => stuck == views.len(),
                Err(e) => stuck < views.len() && e@ == ResolveErrorView::UnknownLabel(
                    views[stuck].operands[first_unknown(
                        table_view(table@),
                        views[stuck].operands,
                        0,
                    )]->Label_0.name,
                ),
            }
        }),
{
    let ghost views = program_view(program@);
    let mut i: usize = 0;
    while i < program.len()
        invariant
            i <= program@.len(),
            views == program_view(program@),
            first_unresolvable(table_view(table@), views, 0) == first_unresolvable(
                table_view(table@),
                views,
                i as int,
            ),
        decreases program@.len() - i,
    {
        assert(views[i as int] == program@[i as int]@);
        if program[i].opcode != Opcode::_Label {
            if let Some(name) = unknown_in(table, &program[i].operands) {
                return Err(ResolveError::UnknownLabel(name));
            }
        }
        i += 1;
    }
    Ok(())
}

/// Binds the references among the operands.
fn bind_operands(table: &Vec<LabelEntry>, operands: &mut Vec<Operand>)
    ensures
        final(operands)@.len() == old(operands)@.len(),
        operands_view(final(operands)@) == bound_operands(
            table_view(table@),
            operands_view(old(operands)@),
            old(operands)@.len() as int,
        ),
{
    let ghost before = operands_view(operands@);
    let n = operands.len();
    let mut j: usize = 0;
    while j < n
        invariant
            j <= n,
            n == operands@.len(),
            before.len() == n,
            before == operands_view(old(operands)@),
            operands_view(operands@) =~= bound_operands(table_view(table@), before, j as int),
        decreases n - j,
    {
        let ghost at_entry = operands@;
        assert(operands_view(at_entry)[j as int] == bound_operands(
            table_view(table@),
            before,
            j as int,
        )[j as int]);
        assert(at_entry[j as int]@ == before[j as int]);
        let bound = match &operands[j] {
            Operand::Label(label) => match find_label(table, &label.name) {
                Some(k) => {
                    assert(table_view(table@)[k as int] == table@[k as int]@);
                    Some(
                        Operand::Label(
                            Label { name: label.name.clone(), address: Some(table[k].address) },
                        ),
                    )
                },
                None => None,
            },
            _ => None,
        };
        if let Some(operand) = bound {
            operands[j] = operand;
        }
        assert(operands@[j as int]@ == bound_operand(table_view(table@), before[j as int]));
        assert forall|k: int| 0 <= k < n implies operands_view(operands@)[k] == bound_operands(
            table_view(table@),
            before,
            j + 1,
        )[k] by {
            if k != j {
                assert(operands@[k] == at_entry[k]);
                assert(operands_view(at_entry)[k] == bound_operands(
                    table_view(table@),
                    before,
                    j as int,
                )[k]);
            }
        }
        j += 1;
    }
}

/// Binds every reference of the program to the place that the table gives.
pub fn bind_references(table: &Vec<LabelEntry>, program: &mut Vec<Instruction>)
    ensures
        final(program)@.len() == old(program)@.len(),
        program_view(final(program)@) == resolved_prefix(
            table_view(table@),
            program_view(old(program)@),
            old(program)@.len() as int,
        ),
{
    let ghost before = program_view(program@);
    let n = program.len();
    let mut i: usize = 0;
    while i < n
        invariant
            i <= n,
            n == program@.len(),
            before.len() == n,
            before == program_view(old(program)@),
            program_view(program@) =~= resolved_prefix(table_view(table@), before, i as int),
        decreases n - i,
    {
        let ghost at_entry = program@;
        assert(program_view(at_entry)[i as int] == resolved_prefix(
            table_view(table@),
            before,
            i as int,
        )[i as int]);
        assert(at_entry[i as int]@ == before[i as int]);
        if program[i].opcode != Opcode::_Label {
            bind_operands(table, &mut program[i].operands);
        }
        assert(program@[i as int]@ == resolved_instruction(table_view(table@), before[i as int]));
        assert forall|k: int| 0 <= k < n implies program_view(program@)[k] == resolved_prefix(
            table_view(table@),
            before,
            i + 1,
        )[k] by {
            if k != i {
                assert(program@[k] == at_entry[k]);
                assert(program_view(at_entry)[k] == resolved_prefix(
                    table_view(table@),
                    before,
                    i as int,
                )[k]);
            }
        }
        i += 1;
    }
}

/// Resolves the program in place. Where it cannot be resolved, the error is
/// returned and the program is left as it was.
pub fn resolve_program(program: &mut Vec<Instruction>) -> (r: Result<(), ResolveError>)
    ensures
        final(program)@.len() == old(program)@.len(),
        match resolved(program_view(old(program)@)) {
            Ok(done) => r is Ok && program_view(final(program)@) == done,
            Err(e) => r matches Err(x) && x@ == e && final(program)@ == old(program)@,
        },
{
    let table = collect_labels(program)?;
    check_references(&table, program)?;
    bind_references(&table, program);
    Ok(())
}

/// A declaration that is refused is found by the search for the first one.
pub proof fn lemma_bad_declaration_found(program: Seq<InstructionView>, from: int, bad: int)
    requires
        0 <= from <= bad < program.len(),
        declaration_error(label_table(program, bad), program[bad]) is Some,
    ensures
        from <= first_bad_declaration(program, from) <= bad,
    decreases bad - from,
{
    if from < bad && !(declaration_error(label_table(program, from), program[from]) is Some) {
        lemma_bad_declaration_found(program, from + 1, bad);
    }
}

/// A table with one more entry holds a name where the table held it before or
/// the new entry has it.
pub proof fn lemma_find_in_longer_table(
    table: Seq<LabelEntryView>,
    entry: LabelEntryView,
    name: Seq<char>,
    from: int,
)
    requires
        0 <= from <= table.len(),
    ensures
        find_entry(table.push(entry), name, from) is Some <==> (find_entry(table, name, from)
            is Some || entry.name == name),
    decreases table.len() - from,
{
    let longer = table.push(entry);
    if from < table.len() {
        assert(longer[from] == table[from]);
        if table[from].name != name {
            lemma_find_in_longer_table(table, entry, name, from + 1);
        }
    } else {
        assert(longer[from] == entry);
        assert(find_entry(longer, name, from + 1) is None);
    }
}

/// A name that the table of the first instructions holds is held by the table
/// of more instructions too.
pub proof fn lemma_table_keeps_names(
    program: Seq<InstructionView>,
    low: int,
    high: int,
    name: Seq<char>,
)
    requires
        0 <= low <= high,
        find_entry(label_table(program, low), name, 0) is Some,
    ensures
        find_entry(label_table(program, high), name, 0) is Some,
    decreases high - low,
{
    if low < high {
        lemma_table_keeps_names(program, low, high - 1, name);
        let table = label_table(program, high - 1);
        let inst = program[high - 1];
        if declared_label(inst) is Some && declaration_error(table, inst) is None {
            lemma_find_in_longer_table(
                table,
                LabelEntryView {
                    name: declared_label(inst)->Some_0,
                    address: inst.location->Some_0,
                },
                name,
                0,
            );
        }
    }
}

/// Every name that the table holds is declared by a label marker.
pub proof fn lemma_table_names_are_declared(
    program: Seq<InstructionView>,
    count: int,
    name: Seq<char>,
)
    requires
        0 <= count <= program.len(),
        find_entry(label_table(program, count), name, 0) is Some,
    ensures
        exists|k: int| 0 <= k < count && declared_label(#[trigger] program[k]) == Some(name),
    decreases count,
{
    if count > 0 {
        let table = label_table(program, count - 1);
        let inst = program[count - 1];
        if declared_label(inst) is Some && declaration_error(table, inst) is None {
            lemma_find_in_longer_table(
                table,
                LabelEntryView {
                    name: declared_label(inst)->Some_0,
                    address: inst.location->Some_0,
                },
                name,
                0,
            );
        }
        if find_entry(table, name, 0) is Some {
            lemma_table_names_are_declared(program, count - 1, name);
        } else {
            assert(declared_label(program[count - 1]) == Some(name));
        }
    }
}

/// An operand with an unknown reference is found by the search for the first
/// one.
pub proof fn lemma_unknown_reference_found(
    table: Seq<LabelEntryView>,
    operands: Seq<OperandView>,
    from: int,
    unknown: int,
)
    requires
        0 <= from <= unknown < operands.len(),
        unknown_reference(table, operands[unknown]),
    ensures
        from <= first_unknown(table, operands, from) <= unknown,
    decreases unknown - from,
{
    if from < unknown && !unknown_reference(table, operands[from]) {
        lemma_unknown_reference_found(table, operands, from + 1, unknown);
    }
}

/// An instruction with an unknown reference is found by the search for the
/// first one.
pub proof fn lemma_unresolvable_found(
    table: Seq<LabelEntryView>,
    program: Seq<InstructionView>,
    from: int,
    stuck: int,
)
    requires
        0 <= from <= stuck < program.len(),
        has_references(program[stuck]),
        first_unknown(table, program[stuck].operands, 0) < program[stuck].operands.len(),
    ensures
        from <= first_unresolvable(table, program, from) <= stuck,
    decreases stuck - from,
{
    if from < stuck && !(has_references(program[from]) && first_unknown(
        table,
        program[from].operands,
        0,
    ) < program[from].operands.len()) {
        lemma_unresolvable_found(table, program, from + 1, stuck);
    }
}

/// A program that declares the same label twice is not resolved.
pub proof fn lemma_duplicate_label_refused(program: Seq<InstructionView>, first: int, second: int)
    requires
        0 <= first < second < program.len(),
        declared_label(program[first]) is Some,
        declared_label(program[first]) == declared_label(program[second]),
    ensures
        resolved(program) is Err,
{
    let name = declared_label(program[first])->Some_0;
    let table = label_table(program, first);
    if declaration_error(table, program[first]) is Some {
        lemma_bad_declaration_found(program, 0, first);
    } else {
        lemma_find_in_longer_table(
            table,
            LabelEntryView { name, address: program[first].location->Some_0 },
            name,
            0,
        );
        lemma_table_keeps_names(program, first + 1, second, name);
        lemma_bad_declaration_found(program, 0, second);
    }
}

/// A program with a reference to a label that is nowhere declared is not
/// resolved.
pub proof fn lemma_unknown_label_refused(
    program: Seq<InstructionView>,
    index: int,
    operand: int,
)
    requires
        0 <= index < program.len(),
        has_references(program[index]),
        0 <= operand < program[index].operands.len(),
        program[index].operands[operand] is Label,
        forall|k: int|
            0 <= k < program.len() ==> declared_label(#[trigger] program[k]) != Some(
                program[index].operands[operand]->Label_0.name,
            ),
    ensures
        resolved(program) is Err,
{
    let name = program[index].operands[operand]->Label_0.name;
    let table = label_table(program, program.len() as int);
    if find_entry(table, name, 0) is Some {
        lemma_table_names_are_declared(program, program.len() as int, name);
    }
    lemma_unknown_reference_found(table, program[index].operands, 0, operand);
    lemma_unresolvable_found(table, program, 0, index);
}
} // verus!
