//! Layout: gives every instruction and every label its place in the program.
//!
//! Every instruction but a marker occupies one word. A label marker takes the
//! place of the instruction that follows it; a definition has no place.

use crate::immediate::{Address, MAX_WORD_INDEX};
use crate::instruction::{program_view, Instruction, InstructionView};
use crate::opcode::Opcode;
use vstd::prelude::*;

verus! {

/// Why a program could not be laid out.
#[derive(Debug, Clone, Copy, PartialEq, Eq, Structural)]
pub enum LayoutError {
    /// The instruction at `index` would lie at the byte address `address`,
    /// beyond what the machine can address.
    AddressOutOfRange { index: usize, address: u16 },
}

/// The number of words that the first `count` instructions occupy.
pub open spec fn words_before(program: Seq<InstructionView>, count: int) -> int
    decreases count,
{
    if count <= 0 {
        0
    } else {
        words_before(program, count - 1) + if program[count - 1].opcode.takes_space() {
            1int
        } else {
            0int
        }
    }
}

/// The instruction is given a place: all but definitions are.
pub open spec fn has_place(inst: InstructionView) -> bool {
    inst.opcode != Opcode::_Definition
}

/// The instruction at `index` with its place in the program.
pub open spec fn placed(program: Seq<InstructionView>, index: int) -> InstructionView {
    if has_place(program[index]) {
        InstructionView {
            location: Some(Address(words_before(program, index) as u16)),
            ..program[index]
        }
    } else {
        program[index]
    }
}

/// The index of the first instruction from `from` on whose place is out of
/// range; the length of the program where there is none.
pub open spec fn first_unplaceable(program: Seq<InstructionView>, from: int) -> int
    decreases program.len() - from,
{
    if from < 0 || from >= program.len() {
        program.len() as int
    } else if has_place(program[from]) && words_before(program, from) > MAX_WORD_INDEX {
        from
    } else {
        first_unplaceable(program, from + 1)
    }
}

/// The program with its first `count` instructions placed.
pub open spec fn laid_out_prefix(program: Seq<InstructionView>, count: int) -> Seq<
    InstructionView,
> {
    Seq::new(
        program.len(),
        |i: int|
            if i < count {
                placed(program, i)
            } else {
                program[i]
            },
    )
}

/// What layout makes of a program: every instruction in its place, or the
/// error of the first one that has none.
pub open spec fn laid_out(program: Seq<InstructionView>) -> Result<
    Seq<InstructionView>,
    LayoutError,
> {
    let stop = first_unplaceable(program, 0);
    if stop >= program.len() {
        Ok(laid_out_prefix(program, program.len() as int))
    } else {
        Err(
            LayoutError::AddressOutOfRange {
                index: stop as usize,
                address: (2 * words_before(program, stop)) as u16,
            },
        )
    }
}

/// Lays the program out in place. At the first instruction whose place is out
/// of range the error is returned; the instructions before it keep their places.
pub fn layout_program(program: &mut Vec<Instruction>) -> (r: Result<(), LayoutError>)
    ensures
        final(program)@.len() == old(program)@.len(),
        program_view(final(program)@) == laid_out_prefix(
            program_view(old(program)@),
            first_unplaceable(program_view(old(program)@), 0),
        ),
        match laid_out(program_view(old(program)@)) {
            Ok(done) => r is Ok && program_view(final(program)@) == done,
            Err(e) => r == Err::<(), LayoutError>(e),
        },
{
    let ghost before = program_view(program@);
    let n = program.len();
    let mut i: usize = 0;
    let mut words: u16 = 0;
    while i < n
        invariant
            n == program@.len(),
            before.len() == n,
            before == program_view(old(program)@),
            old(program)@.len() == n,
            i <= n,
            words == words_before(before, i as int),
            words <= MAX_WORD_INDEX + 1,
            first_unplaceable(before, 0) == first_unplaceable(before, i as int),
            program_view(program@) =~= laid_out_prefix(before, i as int),
        decreases n - i,
    {
        let ghost at_entry = program@;
        assert(program_view(at_entry)[i as int] == laid_out_prefix(before, i as int)[i as int]);
        assert(at_entry[i as int]@ == before[i as int]);
        let opcode = program[i].opcode;
        if opcode != Opcode::_Definition {
            if words > MAX_WORD_INDEX {
                return Err(LayoutError::AddressOutOfRange { index: i, address: 2 * words });
            }
            program[i].location = Some(Address(words));
        }
        assert(program@[i as int]@ == placed(before, i as int));
        assert forall|j: int| 0 <= j < n implies program_view(program@)[j] == laid_out_prefix(
            before,
            i + 1,
        )[j] by {
            if j != i {
                assert(program@[j] == at_entry[j]);
                assert(program_view(at_entry)[j] == laid_out_prefix(before, i as int)[j]);
            }
        }
        if opcode != Opcode::_Definition && opcode != Opcode::_Label {
            words = words + 1;
        }
        i += 1;
    }
    Ok(())
}

/// No negative number of words stands before an index.
pub proof fn lemma_words_not_negative(program: Seq<InstructionView>, count: int)
    ensures
        words_before(program, count) >= 0,
    decreases count,
{
    if count > 0 {
        lemma_words_not_negative(program, count - 1);
    }
}

/// Where no instruction between two indices takes space, as many words stand
/// before the one index as before the other.
pub proof fn lemma_markers_take_no_space(program: Seq<InstructionView>, low: int, high: int)
    requires
        0 <= low <= high,
        forall|k: int| low <= k < high ==> !(#[trigger] program[k]).opcode.takes_space(),
    ensures
        words_before(program, low) == words_before(program, high),
    decreases high - low,
{
    if low < high {
        lemma_markers_take_no_space(program, low, high - 1);
    }
}

/// In a program that can be laid out, every instruction that has a place lies
/// within the range of the machine.
pub proof fn lemma_places_in_range(program: Seq<InstructionView>, from: int, index: int)
    requires
        0 <= from <= index < program.len(),
        first_unplaceable(program, from) >= program.len(),
        has_place(program[index]),
    ensures
        0 <= words_before(program, index) <= MAX_WORD_INDEX,
    decreases index - from,
{
    lemma_words_not_negative(program, index);
    if from < index {
        lemma_places_in_range(program, from + 1, index);
    }
}

/// In a laid-out program, an instruction that takes space and follows another
/// one directly lies two bytes, that is one word, after it.
pub proof fn lemma_next_instruction_follows(program: Seq<InstructionView>, index: int)
    requires
        0 <= index,
        index + 1 < program.len(),
        program[index].opcode.takes_space(),
        program[index + 1].opcode.takes_space(),
        laid_out(program) is Ok,
    ensures
        ({
            let done = laid_out(program)->Ok_0;
            &&& done[index].location matches Some(first)
            &&& done[index + 1].location matches Some(second)
            &&& 2 * second.0 == 2 * first.0 + 2
        }),
{
    lemma_places_in_range(program, 0, index);
    lemma_places_in_range(program, 0, index + 1);
}

/// In a laid-out program, a label lies where the next instruction that takes
/// space lies: the markers between the two take no space.
pub proof fn lemma_label_marks_next_instruction(
    program: Seq<InstructionView>,
    label: int,
    next: int,
)
    requires
        0 <= label < next < program.len(),
        program[label].opcode == Opcode::_Label,
        program[next].opcode.takes_space(),
        forall|k: int| label <= k < next ==> !(#[trigger] program[k]).opcode.takes_space(),
        laid_out(program) is Ok,
    ensures
        ({
            let done = laid_out(program)->Ok_0;
            done[label].location is Some && done[label].location == done[next].location
        }),
{
    lemma_markers_take_no_space(program, label, next);
}

/// Layout changes nothing but the places: every instruction keeps its mnemonic,
/// its operands and its word.
pub proof fn lemma_layout_keeps_rest(program: Seq<InstructionView>, index: int)
    requires
        0 <= index < program.len(),
    ensures
        placed(program, index).opcode == program[index].opcode,
        placed(program, index).operands == program[index].operands,
        placed(program, index).encoding == program[index].encoding,
{
}
} // verus!
