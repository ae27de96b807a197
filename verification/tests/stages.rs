use simple_assembler::definition::Definition;
use simple_assembler::eval::{evaluate_program, find_redefinition, EvaluatorError};
use simple_assembler::immediate::Address;
use simple_assembler::instruction::Instruction;
use simple_assembler::label::Label;
use simple_assembler::layout::layout_program;
use simple_assembler::opcode::Opcode;
use simple_assembler::operand::Operand;
use simple_assembler::output::{convert_program_to_bytes, OutputError};
use simple_assembler::register::Register;
use simple_assembler::resolve::{resolve_program, ResolveError};

fn label(name: &str) -> Instruction {
    let mut inst = Instruction::new(Opcode::_Label);
    inst.add_label_name(name.to_string());
    inst
}

fn define(name: &str, value: Option<i16>) -> Instruction {
    let mut inst = Instruction::new(Opcode::_Definition);
    inst.add_definition(Definition { name: name.to_string(), value });
    inst
}

fn jump(name: &str) -> Instruction {
    let mut inst = Instruction::new(Opcode::JMP);
    inst.add_label(Label::new(name.to_string()));
    inst
}

fn load(name: &str) -> Instruction {
    let mut inst = Instruction::new(Opcode::LDI);
    inst.add_register(Register::R1);
    inst.add_definition(Definition { name: name.to_string(), value: None });
    inst
}

#[test]
fn layout_places_instructions_two_bytes_apart() {
    let mut program = vec![
        Instruction::new(Opcode::NOP),
        Instruction::new(Opcode::NOP),
        label("a"),
        define("K", Some(1)),
        label("b"),
        Instruction::new(Opcode::HLT),
        label("end"),
    ];
    assert!(layout_program(&mut program).is_ok());
    let places: Vec<Option<u16>> =
        program.iter().map(|i| i.location.map(|a| a.value() * 2)).collect();
    assert_eq!(places, vec![Some(0), Some(2), Some(4), None, Some(4), Some(4), Some(6)]);
}

#[test]
fn layout_of_nothing_is_nothing() {
    let mut program: Vec<Instruction> = Vec::new();
    assert!(layout_program(&mut program).is_ok());
    assert!(program.is_empty());
}

#[test]
fn definition_after_the_last_word_is_no_error() {
    let mut program: Vec<Instruction> = (0..1024).map(|_| Instruction::new(Opcode::NOP)).collect();
    program.push(define("K", Some(1)));
    assert!(layout_program(&mut program).is_ok());
    program.push(label("beyond"));
    assert!(layout_program(&mut program).is_err());
    assert_eq!(program[1023].location, Address::new(2046));
    assert_eq!(program[1025].location, None);
}

#[test]
fn resolve_binds_forward_and_backward() {
    let mut program =
        vec![jump("end"), label("start"), Instruction::new(Opcode::NOP), jump("start"), label("end")];
    layout_program(&mut program).unwrap();
    resolve_program(&mut program).unwrap();
    match (&program[0].operands[0], &program[3].operands[0]) {
        (Operand::Label(forward), Operand::Label(backward)) => {
            assert_eq!(forward.get_address(), Address::new(6));
            assert_eq!(backward.get_address(), Address::new(2));
        },
        other => panic!("expected labels, found {:?}", other),
    }
}

#[test]
fn resolve_refuses_a_label_without_a_place() {
    let mut program = vec![label("lost"), Instruction::new(Opcode::NOP)];
    match resolve_program(&mut program) {
        Err(ResolveError::MissingAddress(name)) => assert_eq!(name, "lost"),
        other => panic!("expected a missing address, found {:?}", other),
    }
}

#[test]
fn resolve_reports_the_duplicate_before_the_unknown() {
    let mut program = vec![jump("nowhere"), label("twice"), label("twice")];
    layout_program(&mut program).unwrap();
    match resolve_program(&mut program) {
        Err(ResolveError::InvalidLabel(name)) => assert_eq!(name, "twice"),
        other => panic!("expected a duplicate label, found {:?}", other),
    }
}

#[test]
fn resolve_leaves_the_program_alone_on_error() {
    let mut program = vec![label("here"), jump("here"), jump("nowhere")];
    layout_program(&mut program).unwrap();
    let before = program.clone();
    match resolve_program(&mut program) {
        Err(ResolveError::UnknownLabel(name)) => assert_eq!(name, "nowhere"),
        other => panic!("expected an unknown label, found {:?}", other),
    }
    assert_eq!(program, before);
}

#[test]
fn labels_are_told_apart_by_case() {
    let mut program = vec![label("Loop"), label("loop"), jump("loop"), jump("Loop")];
    layout_program(&mut program).unwrap();
    assert!(resolve_program(&mut program).is_ok());
    let mut other = vec![label("Loop"), jump("LOOP")];
    layout_program(&mut other).unwrap();
    assert!(matches!(resolve_program(&mut other), Err(ResolveError::UnknownLabel(_))));
}

#[test]
fn evaluate_fills_in_the_values() {
    let mut program = vec![load("K"), define("K", Some(-5)), define("M", Some(7)), load("M")];
    evaluate_program(&mut program).unwrap();
    assert_eq!(
        program[0].operands[1],
        Operand::Def(Definition { name: "K".to_string(), value: Some(-5) })
    );
    assert_eq!(
        program[3].operands[1],
        Operand::Def(Definition { name: "M".to_string(), value: Some(7) })
    );
}

#[test]
fn evaluate_refuses_a_definition_without_a_value() {
    let mut program = vec![define("K", None), load("K")];
    match evaluate_program(&mut program) {
        Err(EvaluatorError::MissingDefinitionValue(name)) => assert_eq!(name, "K"),
        other => panic!("expected a missing value, found {:?}", other),
    }
}

#[test]
fn evaluate_refuses_an_unknown_constant_and_changes_nothing() {
    let mut program = vec![define("K", Some(1)), load("K"), load("L")];
    let before = program.clone();
    match evaluate_program(&mut program) {
        Err(EvaluatorError::UnknownDefinition(name)) => assert_eq!(name, "L"),
        other => panic!("expected an unknown definition, found {:?}", other),
    }
    assert_eq!(program, before);
}

#[test]
fn redefinition_overwrites_and_is_found() {
    let mut program = vec![define("K", Some(1)), load("K"), define("K", Some(2))];
    assert_eq!(find_redefinition(&program), Some(2));
    evaluate_program(&mut program).unwrap();
    assert_eq!(
        program[1].operands[1],
        Operand::Def(Definition { name: "K".to_string(), value: Some(2) })
    );
    let single = vec![define("K", Some(1)), define("L", Some(1))];
    assert_eq!(find_redefinition(&single), None);
}

#[test]
fn image_is_little_endian_and_skips_markers() {
    let mut a = Instruction::new(Opcode::NOP);
    a.encoding = Some(0x1234);
    let mut b = Instruction::new(Opcode::HLT);
    b.encoding = Some(0xabcd);
    let program = vec![a, label("x"), b];
    assert_eq!(convert_program_to_bytes(&program, None).unwrap(), vec![0x34, 0x12, 0xcd, 0xab]);
    assert_eq!(
        convert_program_to_bytes(&program, Some(6)).unwrap(),
        vec![0x34, 0x12, 0xcd, 0xab, 0, 0]
    );
    assert_eq!(
        convert_program_to_bytes(&program, Some(3)),
        Err(OutputError::SizeExceeded { size: 4, limit: 3 })
    );
    assert_eq!(convert_program_to_bytes(&Vec::new(), Some(2)).unwrap(), vec![0, 0]);
    assert_eq!(convert_program_to_bytes(&Vec::new(), Some(0)).unwrap(), Vec::<u8>::new());
}
