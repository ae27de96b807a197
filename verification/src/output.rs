//! The binary image: the words of a program as bytes, low byte first.

use crate::instruction::{program_view, Instruction, InstructionView};
use crate::layout::words_before;
use vstd::prelude::*;

verus! {

/// Why no image could be made of a program.
#[derive(Debug, Clone, Copy, PartialEq, Eq, Structural)]
pub enum OutputError {
    /// The program takes `size` bytes, more than the `limit` that was asked for.
    SizeExceeded { size: usize, limit: u16 },
}

/// The two bytes of a word, low byte first.
pub open spec fn word_bytes(word: u16) -> Seq<u8> {
    seq![(word % 256) as u8, (word / 256) as u8]
}

/// The bytes of an instruction: those of its word, where it has one.
pub open spec fn instruction_bytes(inst: InstructionView) -> Seq<u8> {
    match inst.encoding {
        Some(word) => word_bytes(word),
        None => Seq::empty(),
    }
}

/// The bytes of the first `count` instructions, in program order.
pub open spec fn program_bytes(program: Seq<InstructionView>, count: int) -> Seq<u8>
    decreases count,
{
    if count <= 0 {
        Seq::empty()
    } else {
        program_bytes(program, count - 1) + instruction_bytes(program[count - 1])
    }
}

/// `count` zero bytes.
pub open spec fn zeros(count: int) -> Seq<u8> {
    Seq::new(
        if count < 0 {
            0nat
        } else {
            count as nat
        },
        |i: int| 0u8,
    )
}

/// The image of a program: its bytes, filled up with zero bytes to the size
/// that was asked for, if one was. A size that the program exceeds is refused.
pub open spec fn image(program: Seq<InstructionView>, size: Option<u16>) -> Result<
    Seq<u8>,
    OutputError,
> {
    let natural = program_bytes(program, program.len() as int);
    match size {
        None => Ok(natural),
        Some(limit) => if natural.len() > limit {
            Err(OutputError::SizeExceeded { size: natural.len() as usize, limit })
        } else {
            Ok(natural + zeros(limit - natural.len()))
        },
    }
}

/// A view of a result that holds bytes.
pub open spec fn bytes_view(r: Result<Vec<u8>, OutputError>) -> Result<Seq<u8>, OutputError> {
    match r {
        Ok(bytes) => Ok(bytes@),
        Err(e) => Err(e),
    }
}

/// The image of the program, with the fixed size `size` if one is given.
pub fn convert_program_to_bytes(program: &Vec<Instruction>, size: Option<u16>) -> (r: Result<
    Vec<u8>,
    OutputError,
>)
    ensures
        bytes_view(r) == image(program_view(program@), size),
{
    let ghost views = program_view(program@);
    let mut binary: Vec<u8> = Vec::new();
    let mut i: usize = 0;
    while i < program.len()
        invariant
            i <= program@.len(),
            views == program_view(program@),
            binary@ =~= program_bytes(views, i as int),
        decreases program@.len() - i,
    {
        assert(views[i as int] == program@[i as int]@);
        if let Some(encoding) = program[i].encoding {
            binary.push((encoding % 256) as u8);
            binary.push((encoding / 256) as u8);
        }
        i += 1;
    }
    if let Some(limit) = size {
        if binary.len() > limit as usize {
            return Err(OutputError::SizeExceeded { size: binary.len(), limit });
        }
        let ghost natural = binary@;
        while binary.len() < limit as usize
            invariant
                natural.len() <= binary@.len() <= limit,
                binary@ =~= natural + zeros(binary@.len() - natural.len()),
            decreases limit - binary@.len(),
        {
            binary.push(0);
        }
    }
    Ok(binary)
}

/// An image of a fixed size that the program does not exceed has exactly that
/// size: it begins with the bytes of the program, and all that follows is zero.
pub proof fn lemma_image_is_padded(program: Seq<InstructionView>, limit: u16)
    requires
        program_bytes(program, program.len() as int).len() <= limit,
    ensures
        image(program, Some(limit)) matches Ok(bytes) && ({
            let natural = program_bytes(program, program.len() as int);
            &&& bytes.len() == limit
            &&& bytes.subrange(0, natural.len() as int) == natural
            &&& forall|i: int| natural.len() <= i < limit ==> bytes[i] == 0
        }),
{
    let natural = program_bytes(program, program.len() as int);
    let bytes = natural + zeros(limit - natural.len());
    assert(bytes.subrange(0, natural.len() as int) =~= natural);
}

/// A fixed size that the program exceeds is refused.
pub proof fn lemma_image_too_large(program: Seq<InstructionView>, limit: u16)
    requires
        program_bytes(program, program.len() as int).len() > limit,
    ensures
        image(program, Some(limit)) is Err,
{
}

/// Where the instructions that take space have their words and the markers
/// have none, the program takes two bytes for each instruction that takes
/// space.
pub proof fn lemma_two_bytes_a_word(program: Seq<InstructionView>, count: int)
    requires
        0 <= count <= program.len(),
        forall|i: int|
            0 <= i < program.len() ==> ((#[trigger] program[i]).opcode.takes_space()
                <==> program[i].encoding is Some),
    ensures
        program_bytes(program, count).len() == 2 * words_before(program, count),
    decreases count,
{
    if count > 0 {
        lemma_two_bytes_a_word(program, count - 1);
    }
}
} // verus!
