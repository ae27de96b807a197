use simple_assembler::immediate::{Immediate, Offset};
use simple_assembler::instruction::Instruction;
use simple_assembler::lexical::{comment, comment_start, decimal, hexadecimal, number, skip};
use simple_assembler::opcode::Opcode;
use simple_assembler::operand::Operand;
use simple_assembler::parser::{line_number, parse_program};
use simple_assembler::port::Port;
use simple_assembler::register::Register;
use simple_assembler::syntax::{operand_address, operand_immediate, operand_offset, parse_instruction};
use simple_assembler::tokens::{
    address, character, condition, define, immediate, label_define, label_usage, next_token,
    offset, opcode, port, register, SyntaxError, SyntaxKind,
};

fn operands(text: &str) -> Vec<Operand> {
    parse_instruction(text.as_bytes(), 0).unwrap().0.operands
}

#[test]
fn numbers_in_four_notations() {
    assert_eq!(number(b"0x1F rest", 0, 0x7fff), Some((31, 4)));
    assert_eq!(number(b"0XfF", 0, 0x7fff), Some((255, 4)));
    assert_eq!(number(b"0b1010_1010", 0, 0x7fff), Some((170, 11)));
    assert_eq!(number(b"0B11", 0, 0x7fff), Some((3, 4)));
    assert_eq!(number(b"0o17", 0, 0x7fff), Some((15, 4)));
    assert_eq!(number(b"0O7_7", 0, 0x7fff), Some((63, 5)));
    assert_eq!(number(b"1_000__", 0, 0x7fff), Some((1000, 7)));
    assert_eq!(number(b"000000000000000000012", 0, 0x7fff), Some((12, 21)));
    assert_eq!(number(b"32767", 0, 0x7fff), Some((32767, 5)));
    assert_eq!(number(b"32768", 0, 0x7fff), None);
    assert_eq!(number(b"_1", 0, 0x7fff), None);
    assert_eq!(number(b"", 0, 0x7fff), None);
    assert_eq!(number(b"x1", 0, 0x7fff), None);
    assert_eq!(number(b"ab 17", 3, 0x7fff), Some((17, 5)));
}

#[test]
fn a_marked_number_that_cannot_be_read_is_a_zero() {
    assert_eq!(number(b"0x1FFFF", 0, 0x7fff), Some((0, 1)));
    assert_eq!(number(b"0b2", 0, 0x7fff), Some((0, 1)));
    assert_eq!(number(b"0xg", 0, 0x7fff), Some((0, 1)));
    assert_eq!(hexadecimal(b"0x1FFFF", 0, 0xffff), None);
    assert_eq!(hexadecimal(b"0xFFFF", 0, 0xffff), Some((0xffff, 6)));
    assert_eq!(hexadecimal(b"FFFF", 0, 0xffff), None);
    assert_eq!(decimal(b"128", 0, 127), None);
    assert_eq!(decimal(b"127", 0, 127), Some((127, 3)));
}

#[test]
fn comments_and_whitespace_are_passed_over() {
    let text = b"  // one\n\t; two\r\n# three\n-- four\n% five\n/* six\n seven */ nop";
    let at = skip(text, 0);
    assert_eq!(&text[at..], b"nop");
    assert_eq!(skip(b"nop", 0), 0);
    assert_eq!(skip(b"/* open", 0), 0);
    assert_eq!(skip(b"/ nop", 0), 0);
    assert_eq!(skip(b"- nop", 0), 0);
    assert_eq!(skip(b";\nnop", 0), 2);
    assert_eq!(skip(b"/**/x", 0), 4);
    assert_eq!(skip(b"", 0), 0);
    assert_eq!(comment_start(b"--x", 0), Some(2));
    assert_eq!(comment_start(b"-x", 0), None);
    assert_eq!(comment_start(b"/*", 0), None);
    assert_eq!(comment(b"# to the end\nnop", 0), Some(12));
    assert_eq!(comment(b"nop", 0), None);
}

#[test]
fn separators_between_operands() {
    assert_eq!(next_token(b",  r1", 0), Ok(3));
    assert_eq!(next_token(b",r1", 0), Ok(1));
    assert_eq!(next_token(b" \t r1", 0), Ok(3));
    assert_eq!(next_token(b"", 0), Ok(0));
    assert_eq!(next_token(b"; note\nr1", 0), Ok(6));
    assert_eq!(
        next_token(b"\nr1", 0),
        Err(SyntaxError { offset: 0, kind: SyntaxKind::ExpectedSeparator })
    );
}

#[test]
fn registers_in_range() {
    assert_eq!(register(b"r15", 0), Ok((Register::R15, 3)));
    assert_eq!(register(b"R10,", 0), Ok((Register::R10, 3)));
    assert_eq!(
        register(b"r16", 0),
        Err(SyntaxError { offset: 0, kind: SyntaxKind::RegisterOutOfRange })
    );
    assert_eq!(
        register(b"r01", 0),
        Err(SyntaxError { offset: 0, kind: SyntaxKind::RegisterOutOfRange })
    );
    assert_eq!(
        register(b"r", 0),
        Err(SyntaxError { offset: 0, kind: SyntaxKind::ExpectedRegister })
    );
    assert_eq!(
        register(b"x1", 0),
        Err(SyntaxError { offset: 0, kind: SyntaxKind::ExpectedRegister })
    );
}

#[test]
fn immediates_offsets_and_addresses_in_range() {
    assert_eq!(immediate(b"255", 0), Ok((Immediate::new(255).unwrap(), 3)));
    assert_eq!(immediate(b"-128", 0), Ok((Immediate::new(-128).unwrap(), 4)));
    assert_eq!(immediate(b"+0x7f", 0), Ok((Immediate::new(127).unwrap(), 5)));
    assert_eq!(
        immediate(b"256", 0),
        Err(SyntaxError { offset: 0, kind: SyntaxKind::ImmediateOutOfRange })
    );
    assert_eq!(
        immediate(b"-129", 0),
        Err(SyntaxError { offset: 0, kind: SyntaxKind::ImmediateOutOfRange })
    );
    assert_eq!(
        immediate(b"-x", 0),
        Err(SyntaxError { offset: 1, kind: SyntaxKind::ExpectedNumber })
    );
    assert_eq!(offset(b"7", 0), Ok((Offset::new(7).unwrap(), 1)));
    assert_eq!(offset(b"-8", 0), Ok((Offset::new(-8).unwrap(), 2)));
    assert_eq!(offset(b"8", 0), Err(SyntaxError { offset: 0, kind: SyntaxKind::OffsetOutOfRange }));
    assert_eq!(
        offset(b"-9", 0),
        Err(SyntaxError { offset: 0, kind: SyntaxKind::OffsetOutOfRange })
    );
    assert_eq!(address(b"0x07FE", 0).map(|(a, end)| (a.value(), end)), Ok((1023, 6)));
    assert_eq!(address(b"0x7ff", 0).map(|(a, end)| (a.value(), end)), Ok((1023, 5)));
    assert_eq!(
        address(b"0x0800", 0),
        Err(SyntaxError { offset: 0, kind: SyntaxKind::AddressOutOfRange })
    );
    assert_eq!(
        address(b"0x1234", 0),
        Err(SyntaxError { offset: 0, kind: SyntaxKind::AddressOutOfRange })
    );
    assert_eq!(
        address(b"2046", 0),
        Err(SyntaxError { offset: 0, kind: SyntaxKind::ExpectedAddress })
    );
}

#[test]
fn characters_between_quotes() {
    assert_eq!(character(b"'a'", 0), Ok(('a', 3)));
    assert_eq!(character(b"\"Z\" ", 0), Ok(('Z', 3)));
    assert_eq!(character(b"' '", 0), Ok((' ', 3)));
    assert_eq!(character(b"'''", 0), Ok(('\'', 3)));
    assert_eq!(character(b"'~'", 0), Ok(('~', 3)));
    for bad in [&b"'a\""[..], b"'ab'", b"'\n'", b"''", b"'a", b"a"] {
        assert_eq!(
            character(bad, 0),
            Err(SyntaxError { offset: 0, kind: SyntaxKind::MalformedCharacter })
        );
    }
}

#[test]
fn definitions_are_declared_with_define() {
    let (def, end) = define(b"define LIMIT -0x10 // sixteen", 0).unwrap();
    assert_eq!(def.name, "LIMIT");
    assert_eq!(def.value, Some(-16));
    assert_eq!(end, 18);
    let (def, _) = define(b"DEFINE\t~mask|a&b^c\t+0b11", 0).unwrap();
    assert_eq!(def.name, "~mask|a&b^c");
    assert_eq!(def.value, Some(3));
    let kind = |text: &[u8]| define(text, 0).unwrap_err();
    assert_eq!(kind(b"defin X 1"), SyntaxError { offset: 0, kind: SyntaxKind::ExpectedDefine });
    assert_eq!(kind(b"defineX 1"), SyntaxError { offset: 6, kind: SyntaxKind::ExpectedBlank });
    assert_eq!(kind(b"define 1 2"), SyntaxError { offset: 7, kind: SyntaxKind::ExpectedName });
    assert_eq!(kind(b"define X"), SyntaxError { offset: 8, kind: SyntaxKind::ExpectedBlank });
    assert_eq!(kind(b"define X\n1"), SyntaxError { offset: 8, kind: SyntaxKind::ExpectedBlank });
    assert_eq!(kind(b"define X y"), SyntaxError { offset: 9, kind: SyntaxKind::ExpectedNumber });
    assert_eq!(kind(b"define add 1"), SyntaxError { offset: 7, kind: SyntaxKind::ReservedName });
    assert_eq!(
        kind(b"define X 256"),
        SyntaxError { offset: 9, kind: SyntaxKind::ImmediateOutOfRange }
    );
    assert_eq!(
        kind(b"define X -129"),
        SyntaxError { offset: 9, kind: SyntaxKind::ImmediateOutOfRange }
    );
}

#[test]
fn operands_of_every_kind() {
    assert_eq!(operand_immediate(b"12", 0).unwrap().0, Operand::Imm(Immediate::new(12).unwrap()));
    assert_eq!(operand_immediate(b"rng", 0).unwrap().0, Operand::Port(Port::RNG));
    assert_eq!(operand_immediate(b"'x'", 0).unwrap().0, Operand::Char('x'));
    match operand_immediate(b"speed", 0).unwrap().0 {
        Operand::Def(def) => assert_eq!((def.name.as_str(), def.value), ("speed", None)),
        other => panic!("expected a definition, found {:?}", other),
    }
    assert_eq!(
        operand_immediate(b"r1", 0).unwrap_err(),
        SyntaxError { offset: 0, kind: SyntaxKind::ReservedName }
    );
    assert_eq!(
        operand_immediate(b"?", 0).unwrap_err(),
        SyntaxError { offset: 0, kind: SyntaxKind::ExpectedName }
    );
    assert_eq!(operand_offset(b"-3", 0).unwrap().0, Operand::Offset(Offset::new(-3).unwrap()));
    assert!(matches!(operand_offset(b"step", 0).unwrap().0, Operand::Def(_)));
    assert!(matches!(operand_address(b".loop", 0).unwrap().0, Operand::Label(_)));
    assert!(matches!(operand_address(b"0x10", 0).unwrap().0, Operand::Addr(_)));
}

#[test]
fn instructions_of_every_form() {
    assert_eq!(operands("ret"), vec![]);
    assert_eq!(operands("inc r3"), vec![Operand::Reg(Register::R3)]);
    assert_eq!(
        operands("mov r1 r2"),
        vec![Operand::Reg(Register::R1), Operand::Reg(Register::R2)]
    );
    assert_eq!(
        operands("LDI r4, 0x20"),
        vec![Operand::Reg(Register::R4), Operand::Imm(Immediate::new(32).unwrap())]
    );
    assert_eq!(
        operands("ldi r4 write_char"),
        vec![Operand::Reg(Register::R4), Operand::Port(Port::WriteChar)]
    );
    assert_eq!(operands("str r1 r2 -8").len(), 3);
    assert_eq!(operands("str r1 r2 k").len(), 3);
    assert_eq!(operands("str r1 r2\n").len(), 2);
    assert_eq!(operands("brh >= 0x4").len(), 2);
    assert_eq!(operands("BRH notzero, .x").len(), 2);
    let (inst, end) = parse_instruction(b"\n\t nop ; done\n  hlt", 0).unwrap();
    assert_eq!(inst.opcode, Opcode::NOP);
    assert_eq!(end, 16);
    assert_eq!(inst.location, None);
    assert_eq!(inst.encoding, None);
}

#[test]
fn a_load_without_separator_ends_after_its_registers() {
    let text = b"lod r1 r2\nhlt";
    let (inst, end) = parse_instruction(text, 0).unwrap();
    assert_eq!(inst.operands.len(), 2);
    assert_eq!(end, 9);
    let (inst, end) = parse_instruction(b"lod r1 r2 9", 0).unwrap();
    assert_eq!(inst.operands.len(), 2);
    assert_eq!(end, 10);
    assert_eq!(
        parse_instruction(b"lod r1, r2, 9", 0).unwrap_err(),
        SyntaxError { offset: 12, kind: SyntaxKind::OffsetOutOfRange }
    );
}

#[test]
fn programs_are_read_to_the_end() {
    let program: Vec<Instruction> =
        parse_program(b".start\n  ldi r1, 1 // one\ndefine K 2\n  adi r1, K\n  jmp .start").unwrap();
    let opcodes: Vec<Opcode> = program.iter().map(|i| i.opcode).collect();
    assert_eq!(
        opcodes,
        vec![Opcode::_Label, Opcode::LDI, Opcode::_Definition, Opcode::ADI, Opcode::JMP]
    );
    assert!(parse_program(b"").unwrap().is_empty());
    assert!(parse_program(b" \n// only a comment").unwrap().is_empty());
    assert_eq!(
        parse_program(b"nop\n/* never closed").unwrap_err(),
        SyntaxError { offset: 4, kind: SyntaxKind::ExpectedOpcode }
    );
    assert_eq!(
        parse_program(b"ldi r1, 0x1FFFF").unwrap_err(),
        SyntaxError { offset: 9, kind: SyntaxKind::UnknownOpcode }
    );
    assert_eq!(parse_program(b"nop hlt").unwrap().len(), 2);
    assert_eq!(
        parse_program(b"nop ?").unwrap_err(),
        SyntaxError { offset: 4, kind: SyntaxKind::ExpectedOpcode }
    );
    assert_eq!(
        parse_program(b".a.b").unwrap_err(),
        SyntaxError { offset: 2, kind: SyntaxKind::UnterminatedLabel }
    );
}

#[test]
fn lines_are_counted_from_zero() {
    let text = b"a\nb\r\n\nc";
    assert_eq!(line_number(text, 0), 0);
    assert_eq!(line_number(text, 1), 0);
    assert_eq!(line_number(text, 2), 1);
    assert_eq!(line_number(text, 5), 2);
    assert_eq!(line_number(text, 7), 3);
}

#[test]
fn every_kind_of_error_has_its_place() {
    let at = |offset: usize, kind: SyntaxKind| SyntaxError { offset, kind };
    assert_eq!(condition(b"1", 0).unwrap_err(), at(0, SyntaxKind::ExpectedCondition));
    assert_eq!(condition(b"gt", 0).unwrap_err(), at(0, SyntaxKind::UnknownCondition));
    assert_eq!(condition(b"==", 0).unwrap_err(), at(0, SyntaxKind::UnknownCondition));
    assert_eq!(opcode(b"1", 0).unwrap_err(), at(0, SyntaxKind::ExpectedOpcode));
    assert_eq!(opcode(b"r1", 0).unwrap_err(), at(0, SyntaxKind::UnknownOpcode));
    assert_eq!(port(b"1", 0).unwrap_err(), at(0, SyntaxKind::ExpectedName));
    assert_eq!(port(b"pixel", 0).unwrap_err(), at(0, SyntaxKind::UnknownPort));
    assert_eq!(label_usage(b"loop", 0).unwrap_err(), at(0, SyntaxKind::ExpectedLabel));
    assert_eq!(label_usage(b".1", 0).unwrap_err(), at(1, SyntaxKind::ExpectedName));
    assert_eq!(label_define(b"loop", 0).unwrap_err(), at(0, SyntaxKind::ExpectedLabel));
    assert_eq!(label_define(b". loop", 0).unwrap_err(), at(1, SyntaxKind::ExpectedName));
    assert_eq!(label_define(b".loop:", 0).unwrap_err(), at(5, SyntaxKind::UnterminatedLabel));
    assert_eq!(
        parse_instruction(b"brh r1, .x", 0).unwrap_err(),
        at(4, SyntaxKind::UnknownCondition)
    );
    assert_eq!(
        parse_instruction(b"add r1, r2, 3", 0).unwrap_err(),
        at(12, SyntaxKind::ExpectedRegister)
    );
    assert_eq!(
        parse_instruction(b"ldi r1, 300", 0).unwrap_err(),
        at(8, SyntaxKind::ImmediateOutOfRange)
    );
    assert_eq!(
        parse_instruction(b"jmp 0x1000", 0).unwrap_err(),
        at(4, SyntaxKind::AddressOutOfRange)
    );
    assert_eq!(parse_instruction(b"jmp 12", 0).unwrap_err(), at(4, SyntaxKind::ExpectedAddress));
    assert_eq!(
        parse_instruction(b"ldi r1, 'ab'", 0).unwrap_err(),
        at(8, SyntaxKind::MalformedCharacter)
    );
    assert_eq!(parse_instruction(b"ldi r1, inc", 0).unwrap_err(), at(8, SyntaxKind::ReservedName));
}

#[test]
fn mnemonics_conditions_and_ports_in_any_case() {
    for (text, code) in [("nOp", 0u16), ("Hlt", 1), ("STR", 15), ("neg", 22), ("Cmp", 16)] {
        assert_eq!(opcode(text.as_bytes(), 0).unwrap().0.code(), code);
    }
    for (text, code) in [
        ("zs", 0u8), ("eq", 0), ("=", 0), ("z", 0), ("ZERO", 0),
        ("zc", 1), ("ne", 1), ("!=", 1), ("nz", 1), ("NotZero", 1),
        ("cs", 2), ("ge", 2), (">=", 2), ("c", 2), ("carry", 2),
        ("cc", 3), ("lt", 3), ("<", 3), ("nc", 3), ("notcarry", 3),
    ] {
        assert_eq!(condition(text.as_bytes(), 0).unwrap().0.code(), code, "{}", text);
    }
    let ports = [
        "pixel_x", "pixel_y", "draw_pixel", "clear_pixel", "load_pixel", "buffer_screen",
        "clear_screen_buffer", "write_char", "buffer_chars", "clear_chars_buffer", "show_number",
        "clear_number", "signed_mode", "unsigned_mode", "rng", "controller_input",
    ];
    for (i, text) in ports.iter().enumerate() {
        assert_eq!(port(text.as_bytes(), 0).unwrap().0.code() as usize, 240 + i);
        assert_eq!(port(text.to_uppercase().as_bytes(), 0).unwrap().0.code() as usize, 240 + i);
    }
    for n in 0..16u8 {
        let text = format!("R{}", n);
        assert_eq!(register(text.as_bytes(), 0).unwrap().0.index(), n);
    }
}
