//! The parser: turns the text of a source file into a program.
//!
//! A program is a sequence of label declarations, definitions of constants and
//! instructions, with comments and whitespace between them.

use crate::instruction::{program_view, Instruction, InstructionView};
use crate::keywords::{names, text_is};
use crate::layout::words_before;
use crate::lexical::{byte_is, skip, skipped};
use crate::syntax::{
    parse_definitions, parse_definitions_at, parse_instruction, parse_instruction_at, parse_labels,
    parse_labels_at,
};
use crate::tokens::{agrees_in_view, fault, SyntaxError, SyntaxKind};
use vstd::prelude::*;
use vstd::utf8::encode_utf8;

verus! {

/// The word `define` stands at `at`, in any case of its letters.
pub open spec fn define_stands(s: Seq<u8>, at: int) -> bool {
    0 <= at && at + 6 <= s.len() && names(s.subrange(at, at + 6), "define")
}

/// One entry of a program: the declaration of a label where a `.` stands, the
/// definition of a constant where the word `define` stands, an instruction
/// otherwise.
pub open spec fn item_at(s: Seq<u8>, at: int) -> Result<(InstructionView, int), SyntaxError> {
    if byte_is(s, at, '.') {
        parse_labels_at(s, at)
    } else if define_stands(s, at) {
        parse_definitions_at(s, at)
    } else {
        parse_instruction_at(s, at)
    }
}

/// A program with some instructions before it.
pub open spec fn after(done: Seq<InstructionView>, rest: Result<
    Seq<InstructionView>,
    SyntaxError,
>) -> Result<Seq<InstructionView>, SyntaxError> {
    match rest {
        Ok(more) => Ok(done + more),
        Err(e) => Err(e),
    }
}

/// The program that the text from `at` on holds: its entries up to the end of
/// the text, or the error of the first entry that cannot be read.
pub open spec fn program_at(s: Seq<u8>, at: int) -> Result<Seq<InstructionView>, SyntaxError>
    decreases s.len() - at,
{
    let start = skipped(s, at);
    if start >= s.len() || start < at {
        Ok(Seq::empty())
    } else {
        match item_at(s, start) {
            Err(e) => Err(e),
            Ok((inst, end)) => if start < end <= s.len() {
                after(seq![inst], program_at(s, end))
            } else {
                fault(start, SyntaxKind::ExpectedOpcode)
            },
        }
    }
}

/// The program that a text holds.
pub open spec fn program_of(s: Seq<u8>) -> Result<Seq<InstructionView>, SyntaxError> {
    program_at(s, 0)
}

/// A view of a result that holds a program.
pub open spec fn parsed_view(r: Result<Vec<Instruction>, SyntaxError>) -> Result<
    Seq<InstructionView>,
    SyntaxError,
> {
    match r {
        Ok(program) => Ok(program_view(program@)),
        Err(e) => Err(e),
    }
}

/// Reads the entry of a program at `at`.
pub fn parse_item(input: &[u8], at: usize) -> (r: Result<(Instruction, usize), SyntaxError>)
    requires
        at <= input@.len(),
    ensures
        agrees_in_view(r, item_at(input@, at as int)),
        r matches Ok((_, end)) ==> at < end <= input@.len(),
        r matches Err(e) ==> at <= e.offset <= input@.len(),
{
    if at < input.len() && input[at] == ('.' as u8) {
        parse_labels(input, at)
    } else if input.len() - at >= 6 && text_is(input, at, at + 6, "define") {
        parse_definitions(input, at)
    } else {
        parse_instruction(input, at)
    }
}

/// Reads a whole text as a program.
pub fn parse_program(input: &[u8]) -> (r: Result<Vec<Instruction>, SyntaxError>)
    ensures
        parsed_view(r) == program_of(input@),
        r matches Err(e) ==> e.offset <= input@.len(),
{
    let mut program: Vec<Instruction> = Vec::new();
    let mut at: usize = 0;
    loop
        invariant
            at <= input@.len(),
            program_of(input@) == after(program_view(program@), program_at(input@, at as int)),
        decreases input@.len() - at,
    {
        let start = skip(input, at);
        if start >= input.len() {
            assert(program_view(program@) + Seq::empty() =~= program_view(program@));
            return Ok(program);
        }
        let (made, end) = match parse_item(input, start) {
            Ok(found) => found,
            Err(e) => {
                return Err(e);
            },
        };
        let ghost done = program_view(program@);
        let ghost rest = program_at(input@, end as int);
        program.push(made);
        assert(program_view(program@) =~= done.push(made@));
        assert(rest matches Ok(more) ==> done + (seq![made@] + more) =~= done.push(made@) + more);
        at = end;
    }
}

/// The number of line feeds before the byte at `offset`: the index of its
/// line, the first line being line 0.
pub open spec fn line_of(s: Seq<u8>, offset: int) -> int
    decreases offset,
{
    if offset <= 0 {
        0
    } else {
        line_of(s, offset - 1) + if offset - 1 < s.len() && s[offset - 1] == '\n' as u8 {
            1int
        } else {
            0int
        }
    }
}

/// The index of the line that holds the byte at `offset`.
pub fn line_number(input: &[u8], offset: usize) -> (line: usize)
    requires
        offset <= input@.len(),
    ensures
        line == line_of(input@, offset as int),
{
    let mut line: usize = 0;
    let mut k: usize = 0;
    while k < offset
        invariant
            k <= offset <= input@.len(),
            line == line_of(input@, k as int),
            line <= k,
        decreases offset - k,
    {
        if input[k] == ('\n' as u8) {
            line += 1;
        }
        k += 1;
    }
    line
}

/// Why a source file gave no program.
#[derive(Debug)]
pub enum ParseError {
    /// The name of the file ends in none of `.asm`, `.as` and `.s`.
    InvalidExtension(String),
    /// The file holds no instruction: it is empty, or holds only comments,
    /// labels and definitions.
    NoInstructions(String),
    /// The text of the file cannot be read as a program. `line` is the index
    /// of the line at which the error shows, the first line being line 0.
    FailedToParse { file: String, line: usize, error: SyntaxError },
}

/// What a parse error holds, the name of the file as a sequence of characters.
pub enum ParseErrorView {
    InvalidExtension(Seq<char>),
    NoInstructions(Seq<char>),
    FailedToParse { file: Seq<char>, line: int, error: SyntaxError },
}

impl View for ParseError {
    type V = ParseErrorView;

    open spec fn view(&self) -> ParseErrorView {
        match self {
            ParseError::InvalidExtension(file) => ParseErrorView::InvalidExtension(file@),
            ParseError::NoInstructions(file) => ParseErrorView::NoInstructions(file@),
            ParseError::FailedToParse { file, line, error } => ParseErrorView::FailedToParse {
                file: file@,
                line: *line as int,
                error: *error,
            },
        }
    }
}

/// The path ends in a dot and the three given bytes, or the last two or the
/// last one of them where the others are 0, and more than the dot stands
/// before them in the name of the file.
pub open spec fn ends_in(path: Seq<u8>, ext: Seq<u8>) -> bool {
    let n = path.len() as int;
    let k = ext.len() as int;
    &&& n >= k + 2
    &&& path.subrange(n - k, n) == ext
    &&& path[n - k - 1] == '.' as u8
    &&& path[n - k - 2] != '/' as u8
}

/// The path names a source file: its extension is `asm`, `as` or `s`.
pub open spec fn has_source_extension(path: Seq<u8>) -> bool {
    ends_in(path, seq!['a' as u8, 's' as u8, 'm' as u8]) || ends_in(
        path,
        seq!['a' as u8, 's' as u8],
    ) || ends_in(path, seq!['s' as u8])
}

/// Whether the path names a source file.
pub fn is_source_path(path: &[u8]) -> (r: bool)
    ensures
        r == has_source_extension(path@),
{
    let n = path.len();
    let ghost long_ext = seq!['a' as u8, 's' as u8, 'm' as u8];
    let ghost middle_ext = seq!['a' as u8, 's' as u8];
    let ghost short_ext = seq!['s' as u8];
    let long = n >= 5 && path[n - 3] == ('a' as u8) && path[n - 2] == ('s' as u8) && path[n - 1]
        == ('m' as u8) && path[n - 4] == ('.' as u8) && path[n - 5] != ('/' as u8);
    let middle = n >= 4 && path[n - 2] == ('a' as u8) && path[n - 1] == ('s' as u8) && path[n
        - 3] == ('.' as u8) && path[n - 4] != ('/' as u8);
    let short = n >= 3 && path[n - 1] == ('s' as u8) && path[n - 2] == ('.' as u8) && path[n - 3]
        != ('/' as u8);
    proof {
        if n >= 5 {
            assert(path@.subrange(n - 3, n as int) =~= long_ext <==> (path@[n - 3] == 'a' as u8
                && path@[n - 2] == 's' as u8 && path@[n - 1] == 'm' as u8)) by {
                if path@.subrange(n - 3, n as int) =~= long_ext {
                    assert(path@.subrange(n - 3, n as int)[0] == long_ext[0]);
                    assert(path@.subrange(n - 3, n as int)[1] == long_ext[1]);
                    assert(path@.subrange(n - 3, n as int)[2] == long_ext[2]);
                }
            }
        }
        if n >= 4 {
            assert(path@.subrange(n - 2, n as int) =~= middle_ext <==> (path@[n - 2] == 'a' as u8
                && path@[n - 1] == 's' as u8)) by {
                if path@.subrange(n - 2, n as int) =~= middle_ext {
                    assert(path@.subrange(n - 2, n as int)[0] == middle_ext[0]);
                    assert(path@.subrange(n - 2, n as int)[1] == middle_ext[1]);
                }
            }
        }
        if n >= 3 {
            assert(path@.subrange(n - 1, n as int) =~= short_ext <==> path@[n - 1] == 's' as u8) by {
                if path@.subrange(n - 1, n as int) =~= short_ext {
                    assert(path@.subrange(n - 1, n as int)[0] == short_ext[0]);
                }
            }
        }
    }
    long || middle || short
}

/// What reading a source file gives: its program, or why it has none.
#[verifier::opaque]
pub open spec fn source_program(path: Seq<char>, text: Seq<char>) -> Result<
    Seq<InstructionView>,
    ParseErrorView,
> {
    let bytes = encode_utf8(text);
    if !has_source_extension(encode_utf8(path)) {
        Err(ParseErrorView::InvalidExtension(path))
    } else {
        match program_of(bytes) {
            Err(error) => Err(
                ParseErrorView::FailedToParse {
                    file: path,
                    line: line_of(bytes, error.offset as int),
                    error,
                },
            ),
            Ok(program) => if words_before(program, program.len() as int) == 0 {
                Err(ParseErrorView::NoInstructions(path))
            } else {
                Ok(program)
            },
        }
    }
}

/// Whether the program holds an instruction that takes space.
pub fn holds_instruction(program: &Vec<Instruction>) -> (r: bool)
    ensures
        r == (words_before(program_view(program@), program@.len() as int) > 0),
        words_before(program_view(program@), program@.len() as int) >= 0,
{
    let ghost views = program_view(program@);
    let mut i: usize = 0;
    let mut found = false;
    while i < program.len()
        invariant
            i <= program@.len(),
            views == program_view(program@),
            found == (words_before(views, i as int) > 0),
            words_before(views, i as int) >= 0,
        decreases program@.len() - i,
    {
        assert(views[i as int] == program@[i as int]@);
        if !program[i].opcode.is_marker_code() {
            found = true;
        }
        i += 1;
    }
    found
}

/// A view of a result that holds a program.
pub open spec fn source_view(r: Result<Vec<Instruction>, ParseError>) -> Result<
    Seq<InstructionView>,
    ParseErrorView,
> {
    match r {
        Ok(program) => Ok(program_view(program@)),
        Err(e) => Err(e@),
    }
}

/// Reads the text of the source file `path` as a program.
pub fn parse(path: &str, text: &str) -> (r: Result<Vec<Instruction>, ParseError>)
    ensures
        source_view(r) == source_program(path@, text@),
{
    reveal(source_program);
    if !is_source_path(path.as_bytes()) {
        return Err(ParseError::InvalidExtension(path.to_owned()));
    }
    let input = text.as_bytes();
    match parse_program(input) {
        Err(error) => {
            let line = line_number(input, error.offset);
            Err(ParseError::FailedToParse { file: path.to_owned(), line, error })
        },
        Ok(program) => {
            assert(program_view(program@).len() == program@.len());
            if holds_instruction(&program) {
                Ok(program)
            } else {
                Err(ParseError::NoInstructions(path.to_owned()))
            }
        },
    }
}

/// No pass has touched the instructions of the program yet: none has a place
/// or a word.
pub open spec fn untouched(program: Seq<InstructionView>) -> bool {
    forall|i: int|
        0 <= i < program.len() ==> (#[trigger] program[i]).location is None
            && program[i].encoding is None
}

/// The parser gives instructions that no pass has touched.
pub proof fn lemma_parsed_is_untouched(s: Seq<u8>, at: int)
    requires
        program_at(s, at) is Ok,
    ensures
        untouched(program_at(s, at)->Ok_0),
    decreases s.len() - at,
{
    let start = skipped(s, at);
    if !(start >= s.len() || start < at) {
        let (inst, end) = item_at(s, start)->Ok_0;
        lemma_parsed_is_untouched(s, end);
        let rest = program_at(s, end)->Ok_0;
        let all = seq![inst] + rest;
        assert(inst.location is None && inst.encoding is None);
        assert forall|i: int| 0 <= i < all.len() implies (#[trigger] all[i]).location is None
            && all[i].encoding is None by {
            if i > 0 {
                assert(all[i] == rest[i - 1]);
            }
        }
    }
}
} // verus!
