use simple_assembler::condition::Condition;
use simple_assembler::immediate::{Address, Immediate};
use simple_assembler::label::Label;
use simple_assembler::opcode::Opcode;
use simple_assembler::operand::Operand;
use simple_assembler::port::Port;
use simple_assembler::register::Register;
use simple_assembler::syntax::{parse_definitions, parse_instruction, parse_labels};
use simple_assembler::tokens::{
    address, character, condition, immediate, label_define, label_usage, opcode, port, register,
};

fn rest(input: &str, at: usize) -> &str {
    &input[at..]
}

#[test]
fn identifier() {
    let input = "ADD R1, R2, R3";
    let res = simple_assembler::lexical::identifier(input.as_bytes(), 0);
    assert_eq!(res.map(|end| (rest(input, end), &input[..end])), Some((" R1, R2, R3", "ADD")));
}

#[test]
fn labels_default() {
    let input = ".main_loop_start";
    let result = parse_labels(input.as_bytes(), 0);
    assert!(result.is_ok(), "Failed to parse valid label: \n{:?}", result.unwrap_err());
    let (label, end) = result.unwrap();
    assert_eq!(rest(input, end), "");
    assert_eq!(label.operands[0], Operand::Name("main_loop_start".to_string()));
}

#[test]
fn labels_newline() {
    let input = ".main_loop_start\r\n";
    let result = parse_labels(input.as_bytes(), 0);
    assert!(result.is_ok(), "Failed to parse valid label");
    let (label, _) = result.unwrap();
    assert_eq!(label.operands[0], Operand::Name("main_loop_start".to_string()));
}

#[test]
fn labels_comment() {
    let input = ".main_loop_start // comment\r\n";
    let result = parse_labels(input.as_bytes(), 0);
    assert!(result.is_ok(), "Failed to parse valid label");
    let (label, _) = result.unwrap();
    assert_eq!(label.operands[0], Operand::Name("main_loop_start".to_string()));
}

#[test]
fn definition() {
    let input = "define MY_CONST 10\r\n";
    let result = parse_definitions(input.as_bytes(), 0);
    assert!(result.is_ok(), "Failed to parse valid definition");
}

#[test]
fn definition_missing_value() {
    let input = "define MY_CONST \r\n";
    let result = parse_definitions(input.as_bytes(), 0);
    assert!(result.is_err(), "Failed to error on invalid definition");
}

#[test]
fn definition_invalid_name() {
    let input = "define 1 2 \r\n";
    let result = parse_definitions(input.as_bytes(), 0);
    assert!(result.is_err(), "Failed to error on invalid definition");
}

#[test]
fn reserved_words() {
    let input = "define r11 22 // also comments\r\n";
    let result = parse_definitions(input.as_bytes(), 0);
    assert!(result.is_err(), "Failed to error on invalid definition");
}

#[test]
fn end_of_file() {
    let input = "    ADD R1, R2, R3";
    let result = parse_instruction(input.as_bytes(), 0);
    assert!(result.is_ok(), "Failed to parse valid instruction: \n{:?}", result.unwrap_err());
}

#[test]
fn newline() {
    let input = "ADD R1 R2 R3\r\n";
    let result = parse_instruction(input.as_bytes(), 0);
    assert!(result.is_ok(), "Failed to parse valid instruction: \n{:?}", result.unwrap_err());
}

#[test]
fn semicolon() {
    let input = "ADD R1, R2, R3;\r\n";
    let result = parse_instruction(input.as_bytes(), 0);
    assert!(result.is_ok(), "Failed to parse valid instruction: \n{:?}", result.unwrap_err());
}

#[test]
fn no_space() {
    let input = "ADD R1,R2,R3\r\n";
    let result = parse_instruction(input.as_bytes(), 0);
    assert!(result.is_ok(), "Failed to parse valid instruction: \n{:?}", result.unwrap_err());
}

#[test]
fn weird_comment_1() {
    let input = "ADD/* \r\nThis should fail\r\n\r\n */R1, R2, R3 // comment\r\n";
    let result = parse_instruction(input.as_bytes(), 0);
    assert!(result.is_err(), "Failed to error on invalid instruction");

    let err = result.unwrap_err();
    println!("\n{:?}", err);
}

#[test]
fn weird_comment_2() {
    let input = "NOP/* \r\nThis should pass\r\n\r\n */";
    let result = parse_instruction(input.as_bytes(), 0);
    assert!(result.is_ok(), "Failed to parse valid instruction: \n{:?}", result.unwrap_err());
}

#[test]
fn weird_comment_3() {
    let input = "ADD /* \r\nThis should fail\r\n\r\n */R1, R2, R3 // comment\r\n";
    let result = parse_instruction(input.as_bytes(), 0);
    assert!(result.is_err(), "Failed to error on invalid instruction");

    let err = result.unwrap_err();
    println!("\n{:?}", err);
}

#[test]
fn weird_comment_4() {
    let input = "ADD/* \r\nThis should fail\r\n\r\n */ R1, R2, R3 // comment\r\n";
    let result = parse_instruction(input.as_bytes(), 0);
    assert!(result.is_err(), "Failed to error on invalid instruction");

    let err = result.unwrap_err();
    println!("\n{:?}", err);
}

#[test]
fn invalid_opcode() {
    let input = "jabsr r1, r2, r3\r\n";
    let result = parse_instruction(input.as_bytes(), 0);
    assert!(result.is_err(), "Failed to error on invalid opcode");
}

#[test]
fn operands_out_of_order() {
    let input = "BRH 0x3333 CS\r\n";
    let result = parse_instruction(input.as_bytes(), 0);
    assert!(result.is_err(), "Failed to error on invalid operands");
}

#[test]
fn invalid_operands() {
    let input = "jmp \"Hello World\"\r\n";
    let result = parse_instruction(input.as_bytes(), 0);
    assert!(result.is_err(), "Failed to error on invalid operands");
}

#[test]
fn weird_load_store_1() {
    let input = "    LOD R1, R2, 3";
    let result = parse_instruction(input.as_bytes(), 0);
    assert!(result.is_ok(), "Failed to parse on valid operands: \n{:?}", result.unwrap_err());
}

#[test]
fn weird_load_store_2() {
    let input = "    LOD R1, R3";
    let result = parse_instruction(input.as_bytes(), 0);
    assert!(result.is_ok(), "Failed to parse on valid operands: \n{:?}", result.unwrap_err());
}

#[test]
fn weird_load_store_3() {
    let input = "    LOD R1 R3 3";
    let result = parse_instruction(input.as_bytes(), 0);
    assert!(result.is_ok(), "Failed to parse on valid operands: \n{:?}", result.unwrap_err());
}

#[test]
fn weird_load_store_4() {
    let input = "    LOD R1 R3 // comment\r\n";
    let result = parse_instruction(input.as_bytes(), 0);
    assert!(result.is_ok(), "Failed to parse on valid operands: \n{:?}", result.unwrap_err());
}

#[test]
fn weird_load_store_5() {
    let input = "    LOD R1 R3;\r\n";
    let result = parse_instruction(input.as_bytes(), 0);
    assert!(result.is_ok(), "Failed to parse on valid operands: \n{:?}", result.unwrap_err());
}

#[test]
fn weird_load_store_6() {
    let input = "    LOD R1, R3,\r\n";
    let result = parse_instruction(input.as_bytes(), 0);
    assert!(result.is_err(), "Failed to error on invalid operands");
}

#[test]
fn weird_jump_case() {
    let input = "    jmp .start\r\n.start\r\n    nop";
    let result = parse_instruction(input.as_bytes(), 0);
    assert!(result.is_ok(), "Failed to parse on valid operands: \n{:?}", result.unwrap_err());

    let (instruction, end) = result.unwrap();
    println!("{:?}", instruction);
    assert_eq!(rest(input, end), ".start\r\n    nop");
    assert_eq!(instruction.opcode, Opcode::JMP);
    let offset = Label::new("start".to_string());
    assert_eq!(instruction.operands[0], Operand::Label(offset));
}

#[test]
fn too_few_operands() {
    let input = "sub R1, R2";
    let result = parse_instruction(input.as_bytes(), 0);
    assert!(result.is_err(), "Failed to error on too few operands");
}

#[test]
fn test_parse_character() {
    let input = "'a'";
    let result = character(input.as_bytes(), 0);
    assert!(result.is_ok(), "Failed to parse valid character: \n{:?}", result.unwrap_err());
}

#[test]
fn port_invalid() {
    let input = "clear_screen";
    let result = port(input.as_bytes(), 0);
    assert!(result.is_err(), "Failed to error on invalid port");
}

#[test]
fn port_all_caps() {
    let input = "CLEAR_SCREEN_BUFFER";
    let result = port(input.as_bytes(), 0);
    assert!(result.is_ok(), "Failed to parse valid port: \n{:?}", result.unwrap_err());

    let (port, _) = result.unwrap();
    assert_eq!(port, Port::ClearScreenBuffer);
}

#[test]
fn port_lowercase() {
    let input = "clear_screen_buffer";
    let result = port(input.as_bytes(), 0);
    assert!(result.is_ok(), "Failed to parse valid port: \n{:?}", result.unwrap_err());

    let (port, _) = result.unwrap();
    assert_eq!(port, Port::ClearScreenBuffer);
}

#[test]
fn condition_test() {
    let input = "EQ,";
    let result = condition(input.as_bytes(), 0);
    assert!(result.is_ok(), "Failed to parse valid condition: \n{:?}", result.unwrap_err());

    let (cond, _) = result.unwrap();
    assert_eq!(cond, Condition::Z1);
}

#[test]
fn condition_test_invalid() {
    let input = "gt";
    let result = condition(input.as_bytes(), 0);
    assert!(result.is_err(), "Failed to error on invalid condition");
}

#[test]
fn condition_test_symbol() {
    let input = "!= .test_label";
    let result = condition(input.as_bytes(), 0);
    assert!(result.is_ok(), "Failed to parse valid condition: \n{:?}", result.unwrap_err());

    let (cond, _) = result.unwrap();
    assert_eq!(cond, Condition::Z0);
}

#[test]
fn offset_test() {
    let input = ".offset \r\n";
    let result = label_usage(input.as_bytes(), 0);
    assert!(result.is_ok(), "Failed to parse valid offset: \n{:?}", result.unwrap_err());
}

#[test]
fn offset_invalid() {
    let input = ".";
    let result = label_usage(input.as_bytes(), 0);
    assert!(result.is_err(), "Failed to error on invalid offset");
}

#[test]
fn offset_error_spacing() {
    let input = ".   offset\r\n    nop";
    let result = label_usage(input.as_bytes(), 0);
    assert!(result.is_err(), "Failed to error on invalid offset");

    let err = result.unwrap_err();
    println!("{:?}", err);
}

#[test]
fn test_parse_address() {
    let input = "0x0020\r\n";
    let result = address(input.as_bytes(), 0);
    assert!(result.is_ok(), "Failed to parse valid address: \n{:?}", result.unwrap_err());

    let (addr, _) = result.unwrap();
    assert_eq!(addr, Address::new(0x0020).unwrap());
}

#[test]
fn test_immediate() {
    let input = "42\r\n";
    let result = immediate(input.as_bytes(), 0);
    assert!(
        result.is_ok(),
        "Failed to parse valid immediate value: \n{:?}",
        result.unwrap_err()
    );

    let (imm, _) = result.unwrap();
    assert_eq!(imm, Immediate::new(42).unwrap());
}

#[test]
fn test_immediate_negative() {
    let input = "-69; test with negative";
    let result = immediate(input.as_bytes(), 0);
    assert!(
        result.is_ok(),
        "Failed to parse valid immediate value: \n{:?}",
        result.unwrap_err()
    );

    let (imm, _) = result.unwrap();
    assert_eq!(imm, Immediate::new(-69).unwrap());
}

#[test]
fn test_immediate_binary() {
    let input = "0b101010 // binary";
    let result = immediate(input.as_bytes(), 0);
    assert!(
        result.is_ok(),
        "Failed to parse valid immediate value: \n{:?}",
        result.unwrap_err()
    );

    let (imm, _) = result.unwrap();
    assert_eq!(imm, Immediate::new(42).unwrap());
}

#[test]
fn test_immediate_invalid() {
    let input = "1000 \r\n";
    let result = immediate(input.as_bytes(), 0);
    assert!(result.is_err(), "Failed to error on invalid immediate value");
}

#[test]
fn test_register_comma() {
    let input = "R1,";
    let result = register(input.as_bytes(), 0);
    assert!(result.is_ok(), "Failed to parse valid register: \n{:?}", result.unwrap_err());

    let (reg, _) = result.unwrap();
    assert_eq!(reg, Register::R1);
}

#[test]
fn test_register_semicolon() {
    let input = "r0; test :3";
    let result = register(input.as_bytes(), 0);
    assert!(result.is_ok(), "Failed to parse valid register: \n{:?}", result.unwrap_err());

    let (reg, _) = result.unwrap();
    assert_eq!(reg, Register::R0);
}

#[test]
fn test_register_newline() {
    let input = "r2\r\n";
    let result = register(input.as_bytes(), 0);
    assert!(result.is_ok(), "Failed to parse valid register: \n{:?}", result.unwrap_err());

    let (reg, _) = result.unwrap();
    assert_eq!(reg, Register::R2);
}

#[test]
fn test_register_space() {
    let input = "R3 ";
    let result = register(input.as_bytes(), 0);
    assert!(result.is_ok(), "Failed to parse valid register: \n{:?}", result.unwrap_err());

    let (reg, _) = result.unwrap();
    assert_eq!(reg, Register::R3);
}

#[test]
fn test_register_invalid() {
    let input = "r16,";
    let result = register(input.as_bytes(), 0);
    assert!(result.is_err(), "Failed to error on invalid register");
}

#[test]
fn test_opcode_uppercase() {
    let input = "ADD";
    let result = opcode(input.as_bytes(), 0);
    assert!(result.is_ok(), "Failed to parse valid opcode: \n{:?}", result.unwrap_err());

    let (op, _) = result.unwrap();
    assert_eq!(op, Opcode::ADD);
}

#[test]
fn test_opcode_lowercase() {
    let input = "sub ";
    let result = opcode(input.as_bytes(), 0);
    assert!(result.is_ok(), "Failed to parse valid opcode: \n{:?}", result.unwrap_err());

    let (op, _) = result.unwrap();
    assert_eq!(op, Opcode::SUB);
}

#[test]
fn test_opcode_semicolon() {
    let input = "hlt;\r\n";
    let result = opcode(input.as_bytes(), 0);
    assert!(result.is_ok(), "Failed to parse valid opcode: \n{:?}", result.unwrap_err());

    let (op, _) = result.unwrap();
    assert_eq!(op, Opcode::HLT);
}

#[test]
fn test_opcode_invalid() {
    let input = "jabsr";
    let result = opcode(input.as_bytes(), 0);
    assert!(result.is_err(), "Failed to error on invalid opcode");
}

#[test]
fn test_parse_label() {
    let input = ".my_label\r\n";
    let result = label_define(input.as_bytes(), 0);
    assert!(result.is_ok(), "Failed to parse valid label");
}

#[test]
fn test_parse_labels() {
    let input = ".main_loop_start";
    let result = parse_labels(input.as_bytes(), 0);
    assert!(result.is_ok(), "Failed to parse valid label");
    let (label, end) = result.unwrap();
    assert_eq!(rest(input, end), "");
    assert_eq!(label.operands[0], Operand::Name("main_loop_start".to_string()));
}

#[test]
fn test_parse_definitions() {
    let input = "define MY_CONST 10\r\n";
    let result = parse_definitions(input.as_bytes(), 0);
    assert!(result.is_ok(), "Failed to parse valid definition");
}

#[test]
fn test_parse_instruction() {
    let input = "ADD R1, R2, R3";
    let result = parse_instruction(input.as_bytes(), 0);
    assert!(result.is_ok(), "Failed to parse valid instruction");
}

#[test]
fn test_parse_invalid_instruction() {
    let input = "INVALID R1, R2, R3";
    let result = parse_instruction(input.as_bytes(), 0);
    assert!(result.is_err(), "Parsed invalid instruction successfully");
}

#[test]
fn mod_test_parse_character() {
    let input = "'a'";
    let result = character(input.as_bytes(), 0);
    assert!(result.is_ok(), "Failed to parse valid character");
}

#[test]
fn test_parse_condition() {
    let input = "EQ,";
    let result = condition(input.as_bytes(), 0);
    assert!(result.is_ok(), "Failed to parse valid condition");
}

#[test]
fn test_parse_offset() {
    let input = ".offset";
    let result = label_usage(input.as_bytes(), 0);
    assert!(result.is_ok(), "Failed to parse valid offset");
}

#[test]
fn test_parse_immediate() {
    let input = "42";
    let result = immediate(input.as_bytes(), 0);
    assert!(result.is_ok(), "Failed to parse valid immediate value");
}

#[test]
fn test_parse_register() {
    let input = "R1,";
    let result = register(input.as_bytes(), 0);
    assert!(result.is_ok(), "Failed to parse valid register");
}

#[test]
fn test_parse_opcode() {
    let input = "ADD";
    let result = opcode(input.as_bytes(), 0);
    assert!(result.is_ok(), "Failed to parse valid opcode");
}

#[test]
fn mod_test_parse_label() {
    let input = ".my_label";
    let result = label_define(input.as_bytes(), 0);
    assert!(result.is_ok(), "Failed to parse valid label");
}
