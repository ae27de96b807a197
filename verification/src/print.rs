//! The listing: the program as text, one line for each instruction with its
//! address, its word and its source form.

use crate::condition::Condition;
use crate::definition::{Definition, DefinitionView};
use crate::immediate::{Address, Immediate, Offset};
use crate::instruction::{program_view, Instruction, InstructionView};
use crate::label::{Label, LabelView};
use crate::lexical::{all_ascii, chars_of, text_of};
use crate::opcode::Opcode;
use crate::operand::{operands_view, Operand, OperandView};
use crate::port::Port;
use crate::register::Register;
use vstd::prelude::*;
use vstd::string::StringExecFns;

verus! {

/// The character of a digit: `0` to `9`, then `A` to `F`.
pub open spec fn digit_byte(digit: int) -> u8 {
    if digit < 10 {
        ('0' as u8 + digit) as u8
    } else {
        ('A' as u8 + digit - 10) as u8
    }
}

/// A number shrinks when it is divided by a radix, unless it is zero.
pub proof fn lemma_quotient_is_smaller(value: nat, radix: nat)
    requires
        radix >= 2,
    ensures
        value / radix <= value,
        value > 0 ==> value / radix < value,
        value < radix ==> value / radix == 0,
        value % radix < radix,
{
    assert(value / radix <= value && (value > 0 ==> value / radix < value) && (value < radix
        ==> value / radix == 0) && value % radix < radix) by (nonlinear_arith)
        requires
            radix >= 2,
    ;
}

/// The digits of a number in a radix, filled up with zeros to `width` digits
/// where the number has fewer.
pub open spec fn radix_digits(value: nat, radix: nat, width: nat) -> Seq<u8>
    recommends
        2 <= radix <= 16,
    decreases value, width,
{
    if radix < 2 || (value < radix && width <= 1) {
        seq![digit_byte(value as int)]
    } else {
        proof {
            lemma_quotient_is_smaller(value, radix);
        }
        radix_digits(
            value / radix,
            radix,
            if width > 0 {
                (width - 1) as nat
            } else {
                0
            },
        ).push(digit_byte((value % radix) as int))
    }
}

/// Appends the digits of a number to a text.
fn push_digits(value: u64, radix: u64, width: usize, out: &mut Vec<u8>)
    requires
        2 <= radix <= 16,
        all_ascii(old(out)@),
    ensures
        final(out)@ == old(out)@ + radix_digits(value as nat, radix as nat, width as nat),
        all_ascii(final(out)@),
    decreases value, width,
{
    let ghost before = out@;
    if value < radix && width <= 1 {
        let digit = if value < 10 {
            ('0' as u8) + value as u8
        } else {
            ('A' as u8) + (value - 10) as u8
        };
        out.push(digit);
        assert(out@ =~= before + seq![digit]);
    } else {
        let rest = if width > 0 {
            width - 1
        } else {
            0
        };
        proof {
            lemma_quotient_is_smaller(value as nat, radix as nat);
        }
        push_digits(value / radix, radix, rest, out);
        let low = value % radix;
        let digit = if low < 10 {
            ('0' as u8) + low as u8
        } else {
            ('A' as u8) + (low - 10) as u8
        };
        let ghost middle = out@;
        out.push(digit);
        assert(out@ =~= before + radix_digits(value as nat, radix as nat, width as nat));
    }
}

/// The text of a number in a radix, with at least `width` digits.
pub fn number_text(value: u64, radix: u64, width: usize) -> (r: String)
    requires
        2 <= radix <= 16,
    ensures
        r@ == chars_of(radix_digits(value as nat, radix as nat, width as nat)),
{
    let mut digits: Vec<u8> = Vec::new();
    push_digits(value, radix, width, &mut digits);
    assert(digits@ =~= radix_digits(value as nat, radix as nat, width as nat));
    assert(digits@.subrange(0, digits@.len() as int) =~= digits@);
    text_of(digits.as_slice(), 0, digits.len())
}

/// The text of a number: its decimal digits, after a minus where it is
/// negative.
pub open spec fn signed_chars(value: int) -> Seq<char> {
    if value < 0 {
        "-"@ + chars_of(radix_digits((-value) as nat, 10, 1))
    } else {
        chars_of(radix_digits(value as nat, 10, 1))
    }
}

/// The text of a number between -32768 and 32767.
pub fn signed_text(value: i16) -> (r: String)
    ensures
        r@ == signed_chars(value as int),
{
    if value < 0 {
        let magnitude: u64 = (-(value as i32)) as u64;
        let mut text = "-".to_owned();
        text.append(number_text(magnitude, 10, 1).as_str());
        text
    } else {
        number_text(value as u64, 10, 1)
    }
}

/// `char::to_string` of the standard library: the string that holds the
/// character and nothing else.
#[verifier::external_body]
fn char_text(c: char) -> (r: String)
    ensures
        r@ == seq![c],
{
    c.to_string()
}

/// The mnemonic as it is written in a program. A label marker is written as
/// a dot, a definition marker as the word `define`.
pub open spec fn opcode_chars(opcode: Opcode) -> Seq<char> {
    match opcode {
        Opcode::NOP => "nop"@,
        Opcode::HLT => "hlt"@,
        Opcode::ADD => "add"@,
        Opcode::SUB => "sub"@,
        Opcode::NOR => "nor"@,
        Opcode::AND => "and"@,
        Opcode::XOR => "xor"@,
        Opcode::RSH => "rsh"@,
        Opcode::LDI => "ldi"@,
        Opcode::ADI => "adi"@,
        Opcode::JMP => "jmp"@,
        Opcode::BRH => "brh"@,
        Opcode::CAL => "cal"@,
        Opcode::RET => "ret"@,
        Opcode::LOD => "lod"@,
        Opcode::STR => "str"@,
        Opcode::CMP => "cmp"@,
        Opcode::MOV => "mov"@,
        Opcode::LSH => "lsh"@,
        Opcode::INC => "inc"@,
        Opcode::DEC => "dec"@,
        Opcode::NOT => "not"@,
        Opcode::NEG => "neg"@,
        Opcode::_Label => "."@,
        Opcode::_Definition => "define"@,
    }
}

/// The condition by the first of its names.
pub open spec fn condition_chars(cond: Condition) -> Seq<char> {
    match cond {
        Condition::Z1 => "eq"@,
        Condition::Z0 => "ne"@,
        Condition::C1 => "ge"@,
        Condition::C0 => "lt"@,
    }
}

/// The name of the port in capital letters.
pub open spec fn port_name(port: Port) -> Seq<char> {
    match port {
        Port::PixelX => "PIXEL_X"@,
        Port::PixelY => "PIXEL_Y"@,
        Port::DrawPixel => "DRAW_PIXEL"@,
        Port::ClearPixel => "CLEAR_PIXEL"@,
        Port::LoadPixel => "LOAD_PIXEL"@,
        Port::BufferScreen => "BUFFER_SCREEN"@,
        Port::ClearScreenBuffer => "CLEAR_SCREEN_BUFFER"@,
        Port::WriteChar => "WRITE_CHAR"@,
        Port::BufferChars => "BUFFER_CHARS"@,
        Port::ClearCharsBuffer => "CLEAR_CHARS_BUFFER"@,
        Port::ShowNumber => "SHOW_NUMBER"@,
        Port::ClearNumber => "CLEAR_NUMBER"@,
        Port::SignedMode => "SIGNED_MODE"@,
        Port::UnsignedMode => "UNSIGNED_MODE"@,
        Port::RNG => "RNG"@,
        Port::ControllerInput => "CONTROLLER_INPUT"@,
    }
}

/// The port by its name, with its address in hexadecimal notation.
pub open spec fn port_chars(port: Port) -> Seq<char> {
    port_name(port) + " (0x"@ + chars_of(radix_digits(port.spec_code() as nat, 16, 2)) + ")"@
}

/// The register as it is written in a program.
pub open spec fn register_chars(reg: Register) -> Seq<char> {
    "r"@ + chars_of(radix_digits(reg.spec_index() as nat, 10, 1))
}

/// The address as a byte address in hexadecimal notation.
pub open spec fn address_chars(addr: Address) -> Seq<char> {
    "0x"@ + chars_of(radix_digits(((addr.0 * 2) % 0x10000) as nat, 16, 4))
}

/// The constant by its name, with its value or the word `NULL`.
pub open spec fn definition_chars(def: DefinitionView) -> Seq<char> {
    match def.value {
        Some(value) => def.name + " ("@ + signed_chars(value as int) + ")"@,
        None => def.name + " (NULL)"@,
    }
}

/// The character between quotes, with the low byte of its code in
/// hexadecimal notation.
pub open spec fn char_chars(c: char) -> Seq<char> {
    "'"@ + seq![c] + "' (0x"@ + chars_of(radix_digits(((c as u32) % 256) as nat, 16, 2)) + ")"@
}

/// The operand as the listing shows it.
pub open spec fn operand_chars(operand: OperandView) -> Seq<char> {
    match operand {
        OperandView::Reg(reg) => register_chars(reg),
        OperandView::Imm(imm) => signed_chars(imm.0 as int),
        OperandView::Addr(addr) => address_chars(addr),
        OperandView::Offset(off) => signed_chars(off.0 as int),
        OperandView::Cond(cond) => condition_chars(cond),
        OperandView::Label(label) => "."@ + label.name,
        OperandView::Char(c) => char_chars(c),
        OperandView::Def(def) => definition_chars(def),
        OperandView::Port(port) => port_chars(port),
        OperandView::Name(name) => name,
    }
}

/// The first `count` operands as the listing shows them, with a comma and a
/// space between each two.
pub open spec fn operands_chars(operands: Seq<OperandView>, count: int) -> Seq<char>
    decreases count,
{
    if count <= 0 {
        Seq::empty()
    } else if count == 1 {
        operand_chars(operands[0])
    } else {
        operands_chars(operands, count - 1) + ", "@ + operand_chars(operands[count - 1])
    }
}

/// The mnemonic as the listing shows it: a marker as it begins in a program,
/// any other mnemonic after four spaces and before two.
pub open spec fn mnemonic_chars(opcode: Opcode) -> Seq<char> {
    if opcode == Opcode::_Label {
        "."@
    } else if opcode == Opcode::_Definition {
        "define "@
    } else {
        "    "@ + opcode_chars(opcode) + "  "@
    }
}

/// The line of an instruction: its byte address in four hexadecimal digits,
/// its word in sixteen binary digits, its mnemonic and its operands. Dashes
/// stand where it has no address or no word.
pub open spec fn line_chars(inst: InstructionView) -> Seq<char> {
    let place = match inst.location {
        Some(addr) => chars_of(radix_digits(((addr.0 * 2) % 0x10000) as nat, 16, 4)) + " |"@,
        None => "---- |"@,
    };
    let word = match inst.encoding {
        Some(encoding) => " "@ + chars_of(radix_digits(encoding as nat, 2, 16)) + " |"@,
        None => " ---------------- |"@,
    };
    place + word + mnemonic_chars(inst.opcode) + operands_chars(
        inst.operands,
        inst.operands.len() as int,
    ) + "\n"@
}

/// The lines of the first `count` instructions.
pub open spec fn lines_chars(program: Seq<InstructionView>, count: int) -> Seq<char>
    decreases count,
{
    if count <= 0 {
        Seq::empty()
    } else {
        lines_chars(program, count - 1) + line_chars(program[count - 1])
    }
}

/// The listing of a program: two lines of heading, and a line for each
/// instruction.
pub open spec fn listing_chars(program: Seq<InstructionView>) -> Seq<char> {
    "\naddr |     encoding     |       instructions\n"@
        + "---- | ---------------- | -----------------------\n"@ + lines_chars(
        program,
        program.len() as int,
    )
}

impl Opcode {
    /// The mnemonic as it is written in a program.
    pub fn text(&self) -> (r: String)
        ensures
            r@ == opcode_chars(*self),
    {
        match self {
            Opcode::NOP => "nop".to_owned(),
            Opcode::HLT => "hlt".to_owned(),
            Opcode::ADD => "add".to_owned(),
            Opcode::SUB => "sub".to_owned(),
            Opcode::NOR => "nor".to_owned(),
            Opcode::AND => "and".to_owned(),
            Opcode::XOR => "xor".to_owned(),
            Opcode::RSH => "rsh".to_owned(),
            Opcode::LDI => "ldi".to_owned(),
            Opcode::ADI => "adi".to_owned(),
            Opcode::JMP => "jmp".to_owned(),
            Opcode::BRH => "brh".to_owned(),
            Opcode::CAL => "cal".to_owned(),
            Opcode::RET => "ret".to_owned(),
            Opcode::LOD => "lod".to_owned(),
            Opcode::STR => "str".to_owned(),
            Opcode::CMP => "cmp".to_owned(),
            Opcode::MOV => "mov".to_owned(),
            Opcode::LSH => "lsh".to_owned(),
            Opcode::INC => "inc".to_owned(),
            Opcode::DEC => "dec".to_owned(),
            Opcode::NOT => "not".to_owned(),
            Opcode::NEG => "neg".to_owned(),
            Opcode::_Label => ".".to_owned(),
            Opcode::_Definition => "define".to_owned(),
        }
    }
}

impl Condition {
    /// The condition by the first of its names.
    pub fn text(&self) -> (r: String)
        ensures
            r@ == condition_chars(*self),
    {
        match self {
            Condition::Z1 => "eq".to_owned(),
            Condition::Z0 => "ne".to_owned(),
            Condition::C1 => "ge".to_owned(),
            Condition::C0 => "lt".to_owned(),
        }
    }
}

impl Port {
    /// The port by its name, with its address in hexadecimal notation.
    pub fn text(&self) -> (r: String)
        ensures
            r@ == port_chars(*self),
    {
        let mut text = match self {
            Port::PixelX => "PIXEL_X".to_owned(),
            Port::PixelY => "PIXEL_Y".to_owned(),
            Port::DrawPixel => "DRAW_PIXEL".to_owned(),
            Port::ClearPixel => "CLEAR_PIXEL".to_owned(),
            Port::LoadPixel => "LOAD_PIXEL".to_owned(),
            Port::BufferScreen => "BUFFER_SCREEN".to_owned(),
            Port::ClearScreenBuffer => "CLEAR_SCREEN_BUFFER".to_owned(),
            Port::WriteChar => "WRITE_CHAR".to_owned(),
            Port::BufferChars => "BUFFER_CHARS".to_owned(),
            Port::ClearCharsBuffer => "CLEAR_CHARS_BUFFER".to_owned(),
            Port::ShowNumber => "SHOW_NUMBER".to_owned(),
            Port::ClearNumber => "CLEAR_NUMBER".to_owned(),
            Port::SignedMode => "SIGNED_MODE".to_owned(),
            Port::UnsignedMode => "UNSIGNED_MODE".to_owned(),
            Port::RNG => "RNG".to_owned(),
            Port::ControllerInput => "CONTROLLER_INPUT".to_owned(),
        };
        text.append(" (0x");
        text.append(number_text(self.code() as u64, 16, 2).as_str());
        text.append(")");
        text
    }
}

impl Register {
    /// The register as it is written in a program.
    pub fn text(&self) -> (r: String)
        ensures
            r@ == register_chars(*self),
    {
        let mut text = "r".to_owned();
        text.append(number_text(self.index() as u64, 10, 1).as_str());
        text
    }
}

impl Immediate {
    /// The immediate as a decimal number.
    pub fn text(&self) -> (r: String)
        ensures
            r@ == signed_chars(self.0 as int),
    {
        signed_text(self.0)
    }
}

impl Offset {
    /// The offset as a decimal number.
    pub fn text(&self) -> (r: String)
        ensures
            r@ == signed_chars(self.0 as int),
    {
        signed_text(self.0 as i16)
    }
}

/// The byte address that a word index stands for, within sixteen bits.
fn byte_address(addr: &Address) -> (r: u64)
    ensures
        r == (addr.0 * 2) % 0x10000,
{
    (addr.0 as u64 * 2) % 0x10000
}

impl Address {
    /// The address as a byte address in hexadecimal notation.
    pub fn text(&self) -> (r: String)
        ensures
            r@ == address_chars(*self),
    {
        let mut text = "0x".to_owned();
        text.append(number_text(byte_address(self), 16, 4).as_str());
        text
    }
}

impl Definition {
    /// The constant by its name, with its value or the word `NULL`.
    pub fn text(&self) -> (r: String)
        ensures
            r@ == definition_chars(self@),
    {
        let mut text = self.name.clone();
        match self.value {
            Some(value) => {
                text.append(" (");
                text.append(signed_text(value).as_str());
                text.append(")");
            },
            None => {
                text.append(" (NULL)");
            },
        }
        text
    }
}

impl Label {
    /// The reference as it is written in a program.
    pub fn text(&self) -> (r: String)
        ensures
            r@ == "."@ + self.name@,
    {
        let mut text = ".".to_owned();
        text.append(self.name.as_str());
        text
    }
}

impl Operand {
    /// The operand as the listing shows it.
    pub fn text(&self) -> (r: String)
        ensures
            r@ == operand_chars(self@),
    {
        match self {
            Operand::Reg(reg) => reg.text(),
            Operand::Imm(imm) => imm.text(),
            Operand::Addr(addr) => addr.text(),
            Operand::Offset(off) => off.text(),
            Operand::Cond(cond) => cond.text(),
            Operand::Label(label) => label.text(),
            Operand::Char(c) => {
                let mut text = "'".to_owned();
                text.append(char_text(*c).as_str());
                text.append("' (0x");
                text.append(number_text(((*c as u32) % 256) as u64, 16, 2).as_str());
                text.append(")");
                text
            },
            Operand::Def(def) => def.text(),
            Operand::Port(port) => port.text(),
            Operand::Name(name) => name.clone(),
        }
    }
}

/// Writes the listing of a program.
pub struct AssemblyPrinter<'a> {
    pub program: &'a Vec<Instruction>,
    pub output: String,
}

impl<'a> AssemblyPrinter<'a> {
    /// A printer for the program, which has written nothing yet.
    pub fn new(program: &'a Vec<Instruction>) -> (r: AssemblyPrinter<'a>)
        ensures
            r.program == program,
            r.output@ == Seq::<char>::empty(),
    {
        AssemblyPrinter { program, output: String::new() }
    }

    /// The listing of the program.
    pub fn print(&mut self) -> (r: String)
        ensures
            r@ == listing_chars(program_view(old(self).program@)),
            final(self).program == old(self).program,
            final(self).output@ == Seq::<char>::empty(),
    {
        self.output = String::new();
        self.emit("\naddr |     encoding     |       instructions\n");
        self.emit("---- | ---------------- | -----------------------\n");
        let ghost heading = self.output@;
        let ghost views = program_view(self.program@);
        let mut i: usize = 0;
        while i < self.program.len()
            invariant
                i <= self.program@.len(),
                self.program == old(self).program,
                views == program_view(self.program@),
                self.output@ == heading + lines_chars(views, i as int),
            decreases self.program@.len() - i,
        {
            assert(views[i as int] == self.program@[i as int]@);
            let ghost before = self.output@;
            let program = self.program;
            self.print_instruction(&program[i]);
            assert(self.output@ =~= heading + lines_chars(views, i + 1));
            i += 1;
        }
        let mut done = String::new();
        core::mem::swap(&mut done, &mut self.output);
        done
    }

    /// Writes the line of an instruction.
    pub fn print_instruction(&mut self, instruction: &Instruction)
        ensures
            final(self).program == old(self).program,
            final(self).output@ == old(self).output@ + line_chars(instruction@),
    {
        let ghost before = self.output@;
        match instruction.location {
            Some(location) => {
                self.emit(number_text(byte_address(&location), 16, 4).as_str());
                self.emit(" |");
            },
            None => {
                self.emit("---- |");
            },
        }
        match instruction.encoding {
            Some(encoding) => {
                self.emit(" ");
                self.emit(number_text(encoding as u64, 2, 16).as_str());
                self.emit(" |");
            },
            None => {
                self.emit(" ---------------- |");
            },
        }
        self.print_opcode(&instruction.opcode);
        self.print_operands(&instruction.operands);
        self.emit("\n");
        assert(self.output@ =~= before + line_chars(instruction@));
    }

    /// Writes the operands of an instruction, with a comma and a space between
    /// each two.
    pub fn print_operands(&mut self, operands: &Vec<Operand>)
        ensures
            final(self).program == old(self).program,
            final(self).output@ == old(self).output@ + operands_chars(
                operands_view(operands@),
                operands@.len() as int,
            ),
    {
        let ghost before = self.output@;
        let ghost views = operands_view(operands@);
        let mut i: usize = 0;
        assert(self.output@ =~= before + operands_chars(views, 0));
        while i < operands.len()
            invariant
                i <= operands@.len(),
                self.program == old(self).program,
                views == operands_view(operands@),
                self.output@ == before + operands_chars(views, i as int),
            decreases operands@.len() - i,
        {
            assert(views[i as int] == operands@[i as int]@);
            if i > 0 {
                self.emit(", ");
            }
            self.emit(operands[i].text().as_str());
            assert(self.output@ =~= before + operands_chars(views, i + 1));
            i += 1;
        }
    }

    /// Writes the mnemonic of an instruction.
    pub fn print_opcode(&mut self, opcode: &Opcode)
        ensures
            final(self).program == old(self).program,
            final(self).output@ == old(self).output@ + mnemonic_chars(*opcode),
    {
        let ghost before = self.output@;
        if *opcode == Opcode::_Label {
            self.emit(".");
            return ;
        }
        if *opcode == Opcode::_Definition {
            self.emit("define ");
            return ;
        }
        self.emit("    ");
        self.emit(opcode.text().as_str());
        self.emit("  ");
        assert(self.output@ =~= before + mnemonic_chars(*opcode));
    }

    /// Writes a piece of text.
    pub fn emit(&mut self, s: &str)
        ensures
            final(self).program == old(self).program,
            final(self).output@ == old(self).output@ + s@,
    {
        self.output.append(s);
    }
}

/// The dump of the first `count` bytes: each byte in two hexadecimal digits
/// and a space after it, sixteen bytes to a line, and before every line a
/// line with the offset of its first byte in at least four hexadecimal digits.
pub open spec fn dump_chars(bytes: Seq<u8>, count: int) -> Seq<char>
    decreases count,
{
    if count <= 0 {
        Seq::empty()
    } else {
        let at = count - 1;
        let heading = if at % 16 == 0 {
            "\n"@ + chars_of(radix_digits(at as nat, 16, 4)) + " |\n"@
        } else {
            Seq::empty()
        };
        dump_chars(bytes, at) + heading + chars_of(radix_digits(bytes[at] as nat, 16, 2)) + " "@
    }
}

/// The dump of an image in hexadecimal notation.
pub fn hex_dump(bin: &[u8]) -> (r: String)
    ensures
        r@ == dump_chars(bin@, bin@.len() as int),
{
    let mut text = String::new();
    let mut i: usize = 0;
    while i < bin.len()
        invariant
            i <= bin@.len(),
            text@ == dump_chars(bin@, i as int),
        decreases bin@.len() - i,
    {
        let ghost before = text@;
        if i % 16 == 0 {
            text.append("\n");
            text.append(number_text(i as u64, 16, 4).as_str());
            text.append(" |\n");
        }
        text.append(number_text(bin[i] as u64, 16, 2).as_str());
        text.append(" ");
        assert(text@ =~= dump_chars(bin@, i + 1));
        i += 1;
    }
    text
}

/// The listing of a program.
pub fn print_assembly(program: &Vec<Instruction>) -> (r: String)
    ensures
        r@ == listing_chars(program_view(program@)),
{
    let mut printer = AssemblyPrinter::new(program);
    printer.print()
}

/// An operand as it follows the mnemonic in the source form of an
/// instruction: the name of a label marker at once, any other operand after
/// a space.
pub open spec fn following_chars(operand: OperandView) -> Seq<char> {
    match operand {
        OperandView::Name(name) => name,
        _ => " "@ + operand_chars(operand),
    }
}

/// The first `count` operands as they follow the mnemonic.
pub open spec fn all_following_chars(operands: Seq<OperandView>, count: int) -> Seq<char>
    decreases count,
{
    if count <= 0 {
        Seq::empty()
    } else {
        all_following_chars(operands, count - 1) + following_chars(operands[count - 1])
    }
}

/// The source form of an instruction: its mnemonic and its operands.
pub open spec fn instruction_chars(inst: InstructionView) -> Seq<char> {
    opcode_chars(inst.opcode) + all_following_chars(inst.operands, inst.operands.len() as int)
}

impl Instruction {
    /// The source form of the instruction.
    pub fn text(&self) -> (r: String)
        ensures
            r@ == instruction_chars(self@),
    {
        let mut text = self.opcode.text();
        let ghost mnemonic = text@;
        let ghost views = operands_view(self.operands@);
        let mut i: usize = 0;
        assert(text@ =~= mnemonic + all_following_chars(views, 0));
        while i < self.operands.len()
            invariant
                i <= self.operands@.len(),
                views == operands_view(self.operands@),
                text@ == mnemonic + all_following_chars(views, i as int),
            decreases self.operands@.len() - i,
        {
            assert(views[i as int] == self.operands@[i as int]@);
            match &self.operands[i] {
                Operand::Name(name) => {
                    text.append(name.as_str());
                },
                other => {
                    text.append(" ");
                    text.append(other.text().as_str());
                },
            }
            assert(text@ =~= mnemonic + all_following_chars(views, i + 1));
            i += 1;
        }
        text
    }
}

/// What the listing writes for a mnemonic, the parser reads as that mnemonic.
pub proof fn lemma_mnemonic_reads_back(opcode: Opcode, text: Seq<u8>)
    requires
        !opcode.is_marker(),
        chars_of(text) == opcode_chars(opcode),
    ensures
        crate::keywords::opcode_named(text) == Some(opcode),
{
    reveal_strlit("nop");
    reveal_strlit("hlt");
    reveal_strlit("add");
    reveal_strlit("sub");
    reveal_strlit("nor");
    reveal_strlit("and");
    reveal_strlit("xor");
    reveal_strlit("rsh");
    reveal_strlit("ldi");
    reveal_strlit("adi");
    reveal_strlit("jmp");
    reveal_strlit("brh");
    reveal_strlit("cal");
    reveal_strlit("ret");
    reveal_strlit("lod");
    reveal_strlit("str");
    reveal_strlit("cmp");
    reveal_strlit("mov");
    reveal_strlit("lsh");
    reveal_strlit("inc");
    reveal_strlit("dec");
    reveal_strlit("not");
    reveal_strlit("neg");
    let lowered = crate::keywords::lower_text(text);
    assert(text.len() == 3);
    assert(chars_of(text)[0] == text[0] as char);
    assert(chars_of(text)[1] == text[1] as char);
    assert(chars_of(text)[2] == text[2] as char);
    assert(lowered =~= chars_of(text));
}
} // verus!
