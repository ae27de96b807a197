//! The assembler: runs the passes one after the other, from the text of the
//! source files to the binary image.

use crate::encode::{
    encoded_program, lemma_all_encodable, EncodingError, EncodingErrorView, InstructionEncoder,
};
use crate::eval::{evaluate_program, evaluated, EvaluatorError, EvaluatorErrorView};
use crate::instruction::{program_view, Instruction, InstructionView};
use crate::layout::{laid_out, layout_program, LayoutError};
use crate::output::{convert_program_to_bytes, image, OutputError};
use crate::parser::{
    has_source_extension, lemma_parsed_is_untouched, parse, program_of, source_program, untouched,
    ParseError, ParseErrorView,
};
use crate::resolve::{resolve_program, resolved, ResolveError, ResolveErrorView};
use vstd::prelude::*;
use vstd::utf8::encode_utf8;

verus! {

/// A source file: its name and its text.
#[derive(Debug, Clone)]
pub struct SourceFile {
    pub path: String,
    pub text: String,
}

/// What a source file holds, as sequences of characters.
pub struct SourceView {
    pub path: Seq<char>,
    pub text: Seq<char>,
}

impl View for SourceFile {
    type V = SourceView;

    open spec fn view(&self) -> SourceView {
        SourceView { path: self.path@, text: self.text@ }
    }
}

/// The views of a list of source files, in order.
pub open spec fn sources_view(sources: Seq<SourceFile>) -> Seq<SourceView> {
    Seq::new(sources.len(), |i: int| sources[i]@)
}

/// Why a program could not be assembled: the error of the pass that failed.
#[derive(Debug)]
pub enum AssembleError {
    Parse(ParseError),
    Layout(LayoutError),
    Resolve(ResolveError),
    Evaluate(EvaluatorError),
    Encode(EncodingError),
    Output(OutputError),
}

/// What an assemble error holds: the view of the error of the pass that failed.
pub enum AssembleErrorView {
    Parse(ParseErrorView),
    Layout(LayoutError),
    Resolve(ResolveErrorView),
    Evaluate(EvaluatorErrorView),
    Encode(EncodingErrorView),
    Output(OutputError),
}

impl View for AssembleError {
    type V = AssembleErrorView;

    open spec fn view(&self) -> AssembleErrorView {
        match self {
            AssembleError::Parse(e) => AssembleErrorView::Parse(e@),
            AssembleError::Layout(e) => AssembleErrorView::Layout(*e),
            AssembleError::Resolve(e) => AssembleErrorView::Resolve(e@),
            AssembleError::Evaluate(e) => AssembleErrorView::Evaluate(e@),
            AssembleError::Encode(e) => AssembleErrorView::Encode(e@),
            AssembleError::Output(e) => AssembleErrorView::Output(*e),
        }
    }
}

/// The programs of the first `count` source files, one after the other, or
/// the error of the first file that gives none.
pub open spec fn concatenated(sources: Seq<SourceView>, count: int) -> Result<
    Seq<InstructionView>,
    ParseErrorView,
>
    decreases count,
{
    if count <= 0 {
        Ok(Seq::empty())
    } else {
        match concatenated(sources, count - 1) {
            Err(e) => Err(e),
            Ok(before) => match source_program(sources[count - 1].path, sources[count - 1].text) {
                Err(e) => Err(e),
                Ok(program) => Ok(before + program),
            },
        }
    }
}

/// What the passes after the parser make of a program.
pub open spec fn processed(program: Seq<InstructionView>) -> Result<
    Seq<InstructionView>,
    AssembleErrorView,
> {
    match laid_out(program) {
        Err(e) => Err(AssembleErrorView::Layout(e)),
        Ok(placed) => match resolved(placed) {
            Err(e) => Err(AssembleErrorView::Resolve(e)),
            Ok(bound) => match evaluated(bound) {
                Err(e) => Err(AssembleErrorView::Evaluate(e)),
                Ok(valued) => match encoded_program(valued) {
                    Err(e) => Err(AssembleErrorView::Encode(e)),
                    Ok(done) => Ok(done),
                },
            },
        },
    }
}

/// What assembling makes of source files: the program of all of them, laid
/// out, resolved, evaluated and encoded, and its image; or the error of the
/// first pass that fails.
pub open spec fn assembled(sources: Seq<SourceView>, size: Option<u16>) -> Result<
    (Seq<InstructionView>, Seq<u8>),
    AssembleErrorView,
> {
    match concatenated(sources, sources.len() as int) {
        Err(e) => Err(AssembleErrorView::Parse(e)),
        Ok(program) => match processed(program) {
            Err(e) => Err(e),
            Ok(done) => match image(done, size) {
                Err(e) => Err(AssembleErrorView::Output(e)),
                Ok(bytes) => Ok((done, bytes)),
            },
        },
    }
}

/// A view of what assembling gives.
pub open spec fn assembled_view(r: Result<(Vec<Instruction>, Vec<u8>), AssembleError>) -> Result<
    (Seq<InstructionView>, Seq<u8>),
    AssembleErrorView,
> {
    match r {
        Ok((program, bytes)) => Ok((program_view(program@), bytes@)),
        Err(e) => Err(e@),
    }
}

/// A view of a program or of the error that stood in its way.
pub open spec fn processed_view(r: Result<(), AssembleError>, program: Seq<Instruction>) -> Result<
    Seq<InstructionView>,
    AssembleErrorView,
> {
    match r {
        Ok(_) => Ok(program_view(program)),
        Err(e) => Err(e@),
    }
}

/// The view of two programs, one after the other, is made of their views.
pub proof fn lemma_joined(first: Seq<Instruction>, second: Seq<Instruction>)
    ensures
        program_view(first + second) == program_view(first) + program_view(second),
{
    assert(program_view(first + second) =~= program_view(first) + program_view(second));
}

/// Once a source file gives no program, more files change nothing.
pub proof fn lemma_error_stays(sources: Seq<SourceView>, failed: int, count: int)
    requires
        0 <= failed <= count,
        concatenated(sources, failed) is Err,
    ensures
        concatenated(sources, count) == concatenated(sources, failed),
    decreases count - failed,
{
    if failed < count {
        lemma_error_stays(sources, failed, count - 1);
    }
}

/// Reads the source files one after the other into one program.
pub fn parse_sources(sources: &Vec<SourceFile>) -> (r: Result<Vec<Instruction>, ParseError>)
    ensures
        crate::parser::source_view(r) == concatenated(
            sources_view(sources@),
            sources@.len() as int,
        ),
{
    let ghost views = sources_view(sources@);
    let mut program: Vec<Instruction> = Vec::new();
    let mut i: usize = 0;
    assert(program_view(program@) =~= Seq::empty());
    while i < sources.len()
        invariant
            i <= sources@.len(),
            views == sources_view(sources@),
            concatenated(views, i as int) == Ok::<Seq<InstructionView>, ParseErrorView>(
                program_view(program@),
            ),
        decreases sources@.len() - i,
    {
        assert(views[i as int] == sources@[i as int]@);
        let mut code = match parse(sources[i].path.as_str(), sources[i].text.as_str()) {
            Ok(code) => code,
            Err(e) => {
                proof {
                    lemma_error_stays(views, i + 1, sources@.len() as int);
                }
                return Err(e);
            },
        };
        let ghost before = program@;
        let ghost added = code@;
        program.append(&mut code);
        proof {
            lemma_joined(before, added);
        }
        i += 1;
    }
    Ok(program)
}

/// Runs the passes after the parser on the program: layout, resolver,
/// evaluator and encoder. The first pass that fails ends the run.
pub fn process(program: &mut Vec<Instruction>) -> (r: Result<(), AssembleError>)
    ensures
        final(program)@.len() == old(program)@.len(),
        processed_view(r, final(program)@) == processed(program_view(old(program)@)),
{
    if let Err(e) = layout_program(program) {
        return Err(AssembleError::Layout(e));
    }
    if let Err(e) = resolve_program(program) {
        return Err(AssembleError::Resolve(e));
    }
    if let Err(e) = evaluate_program(program) {
        return Err(AssembleError::Evaluate(e));
    }
    let mut encoder = InstructionEncoder::new();
    if let Err(e) = encoder.encode_program(program) {
        return Err(AssembleError::Encode(e));
    }
    Ok(())
}

/// Assembles the source files into one program and its image, with the fixed
/// size `size` if one is given.
pub fn assemble(sources: &Vec<SourceFile>, size: Option<u16>) -> (r: Result<
    (Vec<Instruction>, Vec<u8>),
    AssembleError,
>)
    ensures
        assembled_view(r) == assembled(sources_view(sources@), size),
{
    assert(sources_view(sources@).len() == sources@.len());
    let mut program = match parse_sources(sources) {
        Ok(program) => program,
        Err(e) => {
            return Err(AssembleError::Parse(e));
        },
    };
    process(&mut program)?;
    match convert_program_to_bytes(&program, size) {
        Ok(bytes) => Ok((program, bytes)),
        Err(e) => Err(AssembleError::Output(e)),
    }
}

/// An assembler with the size of its images.
pub struct Assembler {
    /// The fixed size of the image in bytes, if it has one.
    pub size: Option<u16>,
}

impl Assembler {
    /// An assembler whose images are as large as their programs.
    pub fn new() -> (r: Assembler)
        ensures
            r.size.is_none(),
    {
        Assembler { size: None }
    }

    /// Assembles the source files into one program and its image.
    pub fn assemble(&self, sources: &Vec<SourceFile>) -> (r: Result<
        (Vec<Instruction>, Vec<u8>),
        AssembleError,
    >)
        ensures
            assembled_view(r) == assembled(sources_view(sources@), self.size),
    {
        assemble(sources, self.size)
    }

    /// The listing of a program.
    pub fn print_program(&self, program: &Vec<Instruction>) -> (r: String)
        ensures
            r@ == crate::print::listing_chars(program_view(program@)),
    {
        crate::print::print_assembly(program)
    }

    /// The dump of an image in hexadecimal notation.
    pub fn hex_dump(&self, bin: &[u8]) -> (r: String)
        ensures
            r@ == crate::print::dump_chars(bin@, bin@.len() as int),
    {
        crate::print::hex_dump(bin)
    }

    /// The image of a program, of the size of this assembler.
    pub fn convert_program_to_bytes(&self, program: &Vec<Instruction>) -> (r: Result<
        Vec<u8>,
        OutputError,
    >)
        ensures
            crate::output::bytes_view(r) == image(program_view(program@), self.size),
    {
        convert_program_to_bytes(program, self.size)
    }
}

/// The two lists of source files hold the same texts under names that are
/// those of source files.
pub open spec fn same_texts(first: Seq<SourceView>, second: Seq<SourceView>) -> bool {
    &&& first.len() == second.len()
    &&& forall|i: int|
        0 <= i < first.len() ==> (#[trigger] first[i]).text == second[i].text
            && has_source_extension(encode_utf8(first[i].path)) && has_source_extension(
            encode_utf8(second[i].path),
        )
}

/// Source files that hold the same texts give the same program, whatever
/// their names.
pub proof fn lemma_same_text_same_program(
    first: Seq<SourceView>,
    second: Seq<SourceView>,
    count: int,
)
    requires
        same_texts(first, second),
        0 <= count <= first.len(),
    ensures
        concatenated(first, count) is Ok <==> concatenated(second, count) is Ok,
        concatenated(first, count) is Ok ==> concatenated(first, count)->Ok_0 == concatenated(
            second,
            count,
        )->Ok_0,
    decreases count,
{
    reveal(source_program);
    if count > 0 {
        lemma_same_text_same_program(first, second, count - 1);
        assert(first[count - 1].text == second[count - 1].text);
    }
}

/// Assembling is a matter of the texts alone: source files that hold the same
/// texts give the same program and, byte for byte, the same image.
pub proof fn lemma_same_text_same_image(
    first: Seq<SourceView>,
    second: Seq<SourceView>,
    size: Option<u16>,
)
    requires
        same_texts(first, second),
    ensures
        assembled(first, size) is Ok <==> assembled(second, size) is Ok,
        assembled(first, size) is Ok ==> assembled(first, size)->Ok_0 == assembled(
            second,
            size,
        )->Ok_0,
{
    lemma_same_text_same_program(first, second, first.len() as int);
}

/// The programs of source files, one after the other, are made of
/// instructions that no pass has touched.
pub proof fn lemma_concatenated_is_untouched(sources: Seq<SourceView>, count: int)
    requires
        concatenated(sources, count) is Ok,
    ensures
        untouched(concatenated(sources, count)->Ok_0),
    decreases count,
{
    reveal(source_program);
    if count > 0 {
        lemma_concatenated_is_untouched(sources, count - 1);
        let before = concatenated(sources, count - 1)->Ok_0;
        let text = encode_utf8(sources[count - 1].text);
        lemma_parsed_is_untouched(text, 0);
        let program = program_of(text)->Ok_0;
        let all = before + program;
        assert forall|i: int| 0 <= i < all.len() implies (#[trigger] all[i]).location is None
            && all[i].encoding is None by {
            if i < before.len() {
                assert(all[i] == before[i]);
            } else {
                assert(all[i] == program[i - before.len()]);
            }
        }
    }
}

/// A program that was assembled is complete: every instruction that takes
/// space has its place and its word, every label has its place, and no marker
/// has a word.
pub proof fn lemma_assembled_is_complete(sources: Seq<SourceView>, size: Option<u16>, index: int)
    requires
        assembled(sources, size) is Ok,
        0 <= index < assembled(sources, size)->Ok_0.0.len(),
    ensures
        ({
            let inst = assembled(sources, size)->Ok_0.0[index];
            &&& inst.opcode.takes_space() ==> inst.location is Some && inst.encoding is Some
            &&& inst.opcode == crate::opcode::Opcode::_Label ==> inst.location is Some
            &&& inst.opcode.is_marker() ==> inst.encoding is None
        }),
{
    let parsed = concatenated(sources, sources.len() as int)->Ok_0;
    lemma_concatenated_is_untouched(sources, sources.len() as int);
    let placed = laid_out(parsed)->Ok_0;
    let bound = resolved(placed)->Ok_0;
    let valued = evaluated(bound)->Ok_0;
    let done = encoded_program(valued)->Ok_0;
    assert(placed.len() == parsed.len());
    assert(bound.len() == placed.len());
    assert(valued.len() == bound.len());
    assert(done.len() == valued.len());
    assert(parsed[index].encoding is None);
    lemma_all_encodable(valued, 0, index);
}
} // verus!
