use simple_assembler::assembler::{parse_sources, process, Assembler, SourceFile};
use simple_assembler::definition::Definition;
use simple_assembler::eval::{check_uses, evaluate_instruction, find_definitions, lookup, value_uses};
use simple_assembler::immediate::Address;
use simple_assembler::instruction::Instruction;
use simple_assembler::keywords::{
    find_condition, find_opcode, find_port, find_register, reserved, text_is, to_lower,
};
use simple_assembler::label::Label;
use simple_assembler::layout::layout_program;
use simple_assembler::lexical::{belongs, multiline_comment, numeral, scan_run, ByteClass};
use simple_assembler::opcode::Opcode;
use simple_assembler::operand::Operand;
use simple_assembler::parser::{holds_instruction, is_source_path, parse_item};
use simple_assembler::register::Register;
use simple_assembler::resolve::{bind_references, check_references, collect_labels, find_label};

fn label(name: &str, place: u16) -> Instruction {
    let mut inst = Instruction::new(Opcode::_Label);
    inst.add_label_name(name.to_string());
    inst.location = Address::new(place);
    inst
}

fn define(name: &str, value: i16) -> Instruction {
    let mut inst = Instruction::new(Opcode::_Definition);
    inst.add_definition(Definition::new_def(name, value).unwrap());
    inst
}

#[test]
fn words_are_compared_without_regard_to_case() {
    assert!(text_is(b"xx NoP", 3, 6, "nop"));
    assert!(!text_is(b"xx NoP", 2, 6, "nop"));
    assert!(!text_is(b"nop", 0, 3, "nop "));
    assert!(!text_is(b"NOP", 0, 3, "NOP"));
    assert!(text_is(b"", 0, 0, ""));
    assert_eq!(to_lower(b'A'), b'a');
    assert_eq!(to_lower(b'Z'), b'z');
    assert_eq!(to_lower(b'['), b'[');
    assert_eq!(to_lower(b'@'), b'@');
    assert_eq!(find_opcode(b"Xor", 0, 3), Some(Opcode::XOR));
    assert_eq!(find_opcode(b"xor", 0, 2), None);
    assert_eq!(find_register(b"R12", 0, 3), Some(Register::R12));
    assert_eq!(find_register(b"12", 0, 2), None);
    assert!(find_condition(b"NOTCARRY", 0, 8).is_some());
    assert!(find_port(b"Show_Number", 0, 11).is_some());
    assert!(reserved(b"DEFINE", 0, 6));
    assert!(reserved(b">=", 0, 2));
    assert!(!reserved(b"defined", 0, 7));
}

#[test]
fn runs_of_bytes_end_where_the_class_ends() {
    assert_eq!(scan_run(b"  \t x", 0, ByteClass::Blank), 4);
    assert_eq!(scan_run(b" \r\n\tx", 0, ByteClass::Whitespace), 4);
    assert_eq!(scan_run(b"abc\r\n", 0, ByteClass::LineRest), 3);
    assert_eq!(scan_run(b"a_1|&^-", 0, ByteClass::NameRest), 6);
    assert_eq!(scan_run(b"12a", 0, ByteClass::Digit), 2);
    assert_eq!(scan_run(b"12a", 3, ByteClass::Digit), 3);
    assert_eq!(scan_run(b"", 0, ByteClass::Digit), 0);
    assert!(belongs(ByteClass::Numeral16, b'F'));
    assert!(belongs(ByteClass::Numeral16, b'_'));
    assert!(!belongs(ByteClass::Numeral16, b'g'));
    assert!(!belongs(ByteClass::Numeral8, b'8'));
    assert!(!belongs(ByteClass::Numeral2, b'2'));
    assert!(belongs(ByteClass::ConditionSign, b'!'));
    assert!(!belongs(ByteClass::ConditionSign, b'1'));
    assert_eq!(numeral(b"777", 0, 8, 0xffff), Some((511, 3)));
    assert_eq!(numeral(b"1_0_1", 0, 2, 0xffff), Some((5, 5)));
    assert_eq!(numeral(b"65535", 0, 10, 0xffff), Some((65535, 5)));
    assert_eq!(numeral(b"65536", 0, 10, 0xffff), None);
    assert_eq!(numeral(b"99999999999999999999999", 0, 10, 0xffff), None);
    assert_eq!(multiline_comment(b"/* a */ b", 0), Some(7));
    assert_eq!(multiline_comment(b"/*/ b", 0), None);
    assert_eq!(multiline_comment(b"/**/", 0), Some(4));
}

#[test]
fn tables_of_labels_and_constants() {
    let program = vec![label("a", 0), Instruction::new(Opcode::NOP), label("b", 2)];
    let table = collect_labels(&program).unwrap();
    assert_eq!(table.len(), 2);
    assert_eq!(find_label(&table, &"b".to_string()), Some(1));
    assert_eq!(find_label(&table, &"c".to_string()), None);
    assert_eq!(table[1].address, Address::new(2).unwrap());

    let mut jumps = vec![Instruction::new(Opcode::JMP)];
    jumps[0].add_label(Label::new("b".to_string()));
    assert!(check_references(&table, &jumps).is_ok());
    bind_references(&table, &mut jumps);
    assert_eq!(
        jumps[0].operands[0],
        Operand::Label(Label { name: "b".to_string(), address: Address::new(2) })
    );

    let defs = vec![define("K", 1), define("L", 2), define("K", 3)];
    let table = find_definitions(&defs).unwrap();
    assert_eq!(table.len(), 3);
    assert_eq!(lookup(&table, &"K".to_string()), Some(3));
    assert_eq!(lookup(&table, &"L".to_string()), Some(2));
    assert_eq!(lookup(&table, &"M".to_string()), None);

    let mut load = Instruction::new(Opcode::LDI);
    load.add_register(Register::R1);
    load.add_definition(Definition::new_opr("K").unwrap());
    let mut program = vec![load];
    assert!(check_uses(&table, &program).is_ok());
    evaluate_instruction(&mut program[0], &table);
    assert_eq!(program[0].operands[1], Operand::Def(Definition::new_def("K", 3).unwrap()));
    let mut marker = define("K", 9);
    evaluate_instruction(&mut marker, &table);
    assert_eq!(marker, define("K", 9));
    value_uses(&table, &mut program);
    assert_eq!(program[0].operands[1], Operand::Def(Definition::new_def("K", 3).unwrap()));
}

#[test]
fn markers_of_another_shape_declare_nothing() {
    let mut odd = Instruction::new(Opcode::_Label);
    odd.add_register(Register::R1);
    let bare = Instruction::new(Opcode::_Label);
    let mut program = vec![odd, bare, Instruction::new(Opcode::_Definition)];
    assert!(collect_labels(&program).unwrap().is_empty());
    assert!(find_definitions(&program).unwrap().is_empty());
    assert!(layout_program(&mut program).is_ok());
    assert!(process(&mut program).is_ok());
}

#[test]
fn source_paths_and_programs() {
    assert!(is_source_path(b"a.asm"));
    assert!(is_source_path(b"a.as"));
    assert!(is_source_path(b"a.s"));
    assert!(is_source_path(b"..s"));
    assert!(!is_source_path(b".s"));
    assert!(!is_source_path(b"/.s"));
    assert!(!is_source_path(b"a.sm"));
    assert!(!is_source_path(b"a.asm "));
    assert!(!is_source_path(b""));
    assert!(!holds_instruction(&vec![label("a", 0)]));
    assert!(holds_instruction(&vec![label("a", 0), Instruction::new(Opcode::RET)]));
    let (item, end) = parse_item(b"define K 1\nnop", 0).unwrap();
    assert_eq!(item.opcode, Opcode::_Definition);
    assert_eq!(end, 10);
    let (item, _) = parse_item(b".k\nnop", 0).unwrap();
    assert_eq!(item.opcode, Opcode::_Label);
    let (item, _) = parse_item(b"nop", 0).unwrap();
    assert_eq!(item.opcode, Opcode::NOP);
}

#[test]
fn sources_are_joined_in_their_order() {
    let sources = vec![
        SourceFile { path: "one.asm".to_string(), text: "nop\n".to_string() },
        SourceFile { path: "two.s".to_string(), text: "hlt\nret\n".to_string() },
    ];
    let mut program = parse_sources(&sources).unwrap();
    let opcodes: Vec<Opcode> = program.iter().map(|i| i.opcode).collect();
    assert_eq!(opcodes, vec![Opcode::NOP, Opcode::HLT, Opcode::RET]);
    process(&mut program).unwrap();
    let image = Assembler { size: Some(8) }.convert_program_to_bytes(&program).unwrap();
    assert_eq!(image, vec![0x00, 0x00, 0x00, 0x10, 0x00, 0xd0, 0, 0]);
    assert!(parse_sources(&Vec::new()).unwrap().is_empty());
}
