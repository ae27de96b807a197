use simple_assembler::condition::Condition;
use simple_assembler::definition::Definition;
use simple_assembler::encode::{EncodingError, InstructionEncoder};
use simple_assembler::immediate::{Address, Immediate, Offset};
use simple_assembler::instruction::Instruction;
use simple_assembler::label::Label;
use simple_assembler::opcode::Opcode;
use simple_assembler::operand::Operand;
use simple_assembler::port::Port;
use simple_assembler::register::Register;

fn registers(opcode: Opcode, regs: &[Register]) -> Instruction {
    let mut inst = Instruction::new(opcode);
    for reg in regs {
        inst.add_register(*reg);
    }
    inst
}

fn word(inst: &Instruction) -> u16 {
    InstructionEncoder::encode_instruction(inst).unwrap().unwrap()
}

#[test]
fn add_packs_its_fields() {
    let inst = registers(Opcode::ADD, &[Register::R1, Register::R2, Register::R3]);
    let w = word(&inst);
    assert_eq!(w, 0x2123);
    assert_eq!(w >> 12, Opcode::ADD.code());
    assert_eq!((w >> 8) & 0xf, 1);
    assert_eq!((w >> 4) & 0xf, 2);
    assert_eq!(w & 0xf, 3);
}

#[test]
fn cmp_encodes_as_sub_with_r0() {
    let cmp = registers(Opcode::CMP, &[Register::R4, Register::R5]);
    let sub = registers(Opcode::SUB, &[Register::R4, Register::R5, Register::R0]);
    assert_eq!(word(&cmp), word(&sub));
    assert_eq!(word(&cmp), 0x3450);
}

#[test]
fn inc_encodes_as_adi_one() {
    let inc = registers(Opcode::INC, &[Register::R2]);
    let mut adi = registers(Opcode::ADI, &[Register::R2]);
    adi.add_immediate(Immediate::new(1).unwrap());
    assert_eq!(word(&inc), word(&adi));
    assert_eq!(word(&inc), 0x9201);
}

#[test]
fn other_macros_encode_as_their_real_forms() {
    assert_eq!(word(&registers(Opcode::DEC, &[Register::R2])), 0x92ff);
    assert_eq!(word(&registers(Opcode::MOV, &[Register::R1, Register::R2])), 0x2102);
    assert_eq!(word(&registers(Opcode::LSH, &[Register::R1, Register::R2])), 0x2112);
    assert_eq!(word(&registers(Opcode::NOT, &[Register::R1, Register::R2])), 0x4102);
    assert_eq!(word(&registers(Opcode::NEG, &[Register::R1, Register::R2])), 0x3012);
}

#[test]
fn opcode_field_round_trips_for_all_real_opcodes() {
    let r = Register::R7;
    let fifteen = Register::R15;
    let mut ldi = registers(Opcode::LDI, &[r]);
    ldi.add_immediate(Immediate::new(255).unwrap());
    let mut adi = registers(Opcode::ADI, &[r]);
    adi.add_immediate(Immediate::new(-128).unwrap());
    let mut jmp = Instruction::new(Opcode::JMP);
    jmp.add_address(Address::new(2046).unwrap());
    let mut cal = Instruction::new(Opcode::CAL);
    cal.add_address(Address::new(0).unwrap());
    let mut brh = Instruction::new(Opcode::BRH);
    brh.add_condition(Condition::C0);
    brh.add_address(Address::new(2046).unwrap());
    let mut lod = registers(Opcode::LOD, &[fifteen, fifteen]);
    lod.add_offset(Offset::new(-1).unwrap());
    let str_ = registers(Opcode::STR, &[r, r]);
    let all = vec![
        (Instruction::new(Opcode::NOP), 0x0000),
        (Instruction::new(Opcode::HLT), 0x1000),
        (registers(Opcode::ADD, &[fifteen, fifteen, fifteen]), 0x2fff),
        (registers(Opcode::SUB, &[r, r, r]), 0x3777),
        (registers(Opcode::NOR, &[r, r, r]), 0x4777),
        (registers(Opcode::AND, &[r, r, r]), 0x5777),
        (registers(Opcode::XOR, &[r, r, r]), 0x6777),
        (registers(Opcode::RSH, &[r, fifteen]), 0x770f),
        (ldi, 0x87ff),
        (adi, 0x9780),
        (jmp, 0xa3ff),
        (brh, 0xbfff),
        (cal, 0xc000),
        (Instruction::new(Opcode::RET), 0xd000),
        (lod, 0xefff),
        (str_, 0xf770),
    ];
    for (code, (inst, expected)) in all.iter().enumerate() {
        let w = word(inst);
        assert_eq!(w, *expected, "{:?}", inst.opcode);
        assert_eq!((w >> 12) as usize, code);
        assert_eq!(inst.opcode.code() as usize, code);
    }
}

#[test]
fn immediate_sources_are_bytes() {
    let mut port = registers(Opcode::LDI, &[Register::R1]);
    port.add_port(Port::PixelX);
    assert_eq!(word(&port), 0x81f0);
    let mut last = registers(Opcode::LDI, &[Register::R1]);
    last.add_port(Port::ControllerInput);
    assert_eq!(word(&last), 0x81ff);
    let mut ch = registers(Opcode::LDI, &[Register::R1]);
    ch.add_character('A');
    assert_eq!(word(&ch), 0x8141);
    let mut def = registers(Opcode::LDI, &[Register::R1]);
    def.add_definition(Definition { name: "k".to_string(), value: Some(-1) });
    assert_eq!(word(&def), 0x81ff);
    let mut negative = registers(Opcode::LDI, &[Register::R1]);
    negative.add_immediate(Immediate::new(-2).unwrap());
    assert_eq!(word(&negative), 0x81fe);
}

#[test]
fn branch_packs_condition_and_address() {
    for (cond, bits) in
        [(Condition::Z1, 0u16), (Condition::Z0, 1), (Condition::C1, 2), (Condition::C0, 3)]
    {
        let mut brh = Instruction::new(Opcode::BRH);
        brh.add_condition(cond);
        brh.add_address(Address::new(0x20).unwrap());
        assert_eq!(word(&brh), 0xb000 | (bits << 10) | 0x10);
    }
}

#[test]
fn label_encodes_as_its_address() {
    let mut target = Instruction::new(Opcode::_Label);
    target.location = Address::new(10);
    let mut label = Label::new("there".to_string());
    label.set_address(&target);
    let mut jmp = Instruction::new(Opcode::JMP);
    jmp.add_label(label);
    assert_eq!(word(&jmp), 0xa005);
}

#[test]
fn load_and_store_offsets() {
    let lod = registers(Opcode::LOD, &[Register::R1, Register::R2]);
    assert_eq!(word(&lod), 0xe120);
    for (off, bits) in [(-8i8, 0x8u16), (-1, 0xf), (0, 0), (7, 7)] {
        let mut inst = registers(Opcode::STR, &[Register::R1, Register::R2]);
        inst.add_offset(Offset::new(off).unwrap());
        assert_eq!(word(&inst), 0xf120 | bits);
    }
    let mut by_name = registers(Opcode::LOD, &[Register::R1, Register::R2]);
    by_name.add_definition(Definition { name: "step".to_string(), value: Some(-3) });
    assert_eq!(word(&by_name), 0xe12d);
}

#[test]
fn markers_have_no_word() {
    let mut label = Instruction::new(Opcode::_Label);
    label.add_label_name("x".to_string());
    assert!(matches!(InstructionEncoder::encode_instruction(&label), Ok(None)));
    let def = Instruction::new(Opcode::_Definition);
    assert!(matches!(InstructionEncoder::encode_instruction(&def), Ok(None)));
}

#[test]
fn wrong_operand_kind_is_refused() {
    let mut inst = registers(Opcode::ADD, &[Register::R1]);
    inst.add_immediate(Immediate::new(3).unwrap());
    inst.add_register(Register::R2);
    match InstructionEncoder::encode_instruction(&inst) {
        Err(EncodingError::InvalidOperand { expected, found }) => {
            assert_eq!(expected, "register");
            assert_eq!(found, Operand::Imm(Immediate::new(3).unwrap()));
        },
        other => panic!("expected an invalid operand, found {:?}", other),
    }
    let mut ldi = registers(Opcode::LDI, &[Register::R1, Register::R2]);
    ldi.add_register(Register::R3);
    assert!(matches!(
        InstructionEncoder::encode_instruction(&ldi),
        Err(EncodingError::InvalidOperand { expected, .. }) if expected == "immediate"
    ));
    let mut brh = Instruction::new(Opcode::BRH);
    brh.add_register(Register::R1);
    assert!(matches!(
        InstructionEncoder::encode_instruction(&brh),
        Err(EncodingError::InvalidOperand { expected, .. }) if expected == "condition"
    ));
    let mut jmp = Instruction::new(Opcode::JMP);
    jmp.add_register(Register::R1);
    assert!(matches!(
        InstructionEncoder::encode_instruction(&jmp),
        Err(EncodingError::InvalidOperand { expected, .. }) if expected == "address"
    ));
    let mut lod = registers(Opcode::LOD, &[Register::R1, Register::R2, Register::R3]);
    lod.add_register(Register::R4);
    assert!(matches!(
        InstructionEncoder::encode_instruction(&lod),
        Err(EncodingError::InvalidOperand { expected, .. }) if expected == "optional immediate"
    ));
}

#[test]
fn missing_operand_is_refused() {
    let inst = registers(Opcode::ADD, &[Register::R1, Register::R2]);
    assert!(matches!(
        InstructionEncoder::encode_instruction(&inst),
        Err(EncodingError::MissingOperand { expected }) if expected == "register"
    ));
    assert!(matches!(
        InstructionEncoder::encode_instruction(&Instruction::new(Opcode::INC)),
        Err(EncodingError::MissingOperand { expected }) if expected == "register"
    ));
    assert!(matches!(
        InstructionEncoder::encode_instruction(&registers(Opcode::LDI, &[Register::R1])),
        Err(EncodingError::MissingOperand { expected }) if expected == "immediate"
    ));
    assert!(matches!(
        InstructionEncoder::encode_instruction(&Instruction::new(Opcode::JMP)),
        Err(EncodingError::MissingOperand { expected }) if expected == "address"
    ));
    assert!(matches!(
        InstructionEncoder::encode_instruction(&Instruction::new(Opcode::BRH)),
        Err(EncodingError::MissingOperand { expected }) if expected == "condition"
    ));
}

#[test]
fn unresolved_references_are_refused() {
    let mut ldi = registers(Opcode::LDI, &[Register::R1]);
    ldi.add_definition(Definition::new_opr("speed").unwrap());
    assert!(matches!(
        InstructionEncoder::encode_instruction(&ldi),
        Err(EncodingError::UnboundDefinition(name)) if name == "speed"
    ));
    let mut lod = registers(Opcode::LOD, &[Register::R1, Register::R2]);
    lod.add_definition(Definition::new_opr("step").unwrap());
    assert!(matches!(
        InstructionEncoder::encode_instruction(&lod),
        Err(EncodingError::UnboundDefinition(name)) if name == "step"
    ));
    let mut jmp = Instruction::new(Opcode::JMP);
    jmp.add_label(Label::new("end".to_string()));
    match InstructionEncoder::encode_instruction(&jmp) {
        Err(EncodingError::InvalidLabel(label)) => assert_eq!(label.name, "end"),
        other => panic!("expected an invalid label, found {:?}", other),
    }
}

#[test]
fn values_out_of_range_are_refused() {
    let mut lod = registers(Opcode::LOD, &[Register::R1, Register::R2]);
    lod.add_definition(Definition { name: "far".to_string(), value: Some(8) });
    assert!(matches!(
        InstructionEncoder::encode_instruction(&lod),
        Err(EncodingError::InvalidOffset(8))
    ));
    let mut low = registers(Opcode::LOD, &[Register::R1, Register::R2]);
    low.add_definition(Definition { name: "far".to_string(), value: Some(-9) });
    assert!(matches!(
        InstructionEncoder::encode_instruction(&low),
        Err(EncodingError::InvalidOffset(-9))
    ));
    let mut ldi = registers(Opcode::LDI, &[Register::R1]);
    ldi.add_definition(Definition { name: "big".to_string(), value: Some(256) });
    assert!(matches!(
        InstructionEncoder::encode_instruction(&ldi),
        Err(EncodingError::ValueOverflow { value: 256, length: 8 })
    ));
    let mut ch = registers(Opcode::LDI, &[Register::R1]);
    ch.add_character('\u{2603}');
    assert!(matches!(
        InstructionEncoder::encode_instruction(&ch),
        Err(EncodingError::ValueOverflow { value: 0x2603, length: 8 })
    ));
    let mut jmp = Instruction::new(Opcode::JMP);
    jmp.add_address(Address(1024));
    assert!(matches!(
        InstructionEncoder::encode_instruction(&jmp),
        Err(EncodingError::ValueOverflow { value: 1024, length: 10 })
    ));
}

#[test]
fn bit_field_writer_checks_its_bounds() {
    assert_eq!(InstructionEncoder::encode_bits(0, 12, 4, 15).unwrap(), 0xf000);
    assert_eq!(InstructionEncoder::encode_bits(0xffff, 4, 4, 0).unwrap(), 0xff0f);
    assert_eq!(InstructionEncoder::encode_bits(0x1234, 0, 16, 0xabcd).unwrap(), 0xabcd);
    assert_eq!(InstructionEncoder::encode_bits(0x1234, 16, 0, 0).unwrap(), 0x1234);
    assert!(matches!(
        InstructionEncoder::encode_bits(0, 13, 4, 1),
        Err(EncodingError::ValueOutOfBounds { value: 1, length: 4 })
    ));
    assert!(matches!(
        InstructionEncoder::encode_bits(0, 0, 17, 1),
        Err(EncodingError::ValueOutOfBounds { value: 1, length: 17 })
    ));
    assert!(matches!(
        InstructionEncoder::encode_bits(0, 8, 4, 16),
        Err(EncodingError::ValueOverflow { value: 16, length: 4 })
    ));
    assert!(matches!(
        InstructionEncoder::encode_bits(0, 8, 0, 1),
        Err(EncodingError::ValueOverflow { value: 1, length: 0 })
    ));
}

#[test]
fn encode_program_stops_at_the_first_error() {
    let mut program = vec![
        Instruction::new(Opcode::NOP),
        registers(Opcode::ADD, &[Register::R1]),
        Instruction::new(Opcode::HLT),
    ];
    let mut encoder = InstructionEncoder::new();
    assert!(matches!(
        encoder.encode_program(&mut program),
        Err(EncodingError::MissingOperand { .. })
    ));
    assert_eq!(program[0].encoding, Some(0));
    assert_eq!(program[1].encoding, None);
    assert_eq!(program[2].encoding, None);
}

#[test]
fn constructors_keep_their_ranges() {
    assert!(Immediate::new(-129).is_none());
    assert_eq!(Immediate::new(-128).unwrap().value(), 0x80);
    assert_eq!(Immediate::new(255).unwrap().value(), 0xff);
    assert!(Immediate::new(256).is_none());
    assert!(Offset::new(-9).is_none());
    assert_eq!(Offset::new(-8).unwrap().encode(), 8);
    assert_eq!(Offset::new(7).unwrap().value(), 7);
    assert!(Offset::new(8).is_none());
    assert_eq!(Address::new(2047).unwrap().value(), 1023);
    assert_eq!(Address::new(7).unwrap().value(), 3);
    assert!(Address::new(2048).is_none());
    assert!(Address::new(0xffff).is_none());
    assert_eq!(Register::from_index(15), Some(Register::R15));
    assert_eq!(Register::from_index(16), None);
    assert_eq!(Register::R9.index(), 9);
}

#[test]
fn definitions_refuse_reserved_names() {
    assert!(Definition::new_def("SPEED", 12).is_some());
    assert_eq!(Definition::new_def("SPEED", 12).unwrap().value, Some(12));
    assert!(Definition::new_def("", 12).is_none());
    assert!(Definition::new_def("SPEED", 256).is_none());
    assert!(Definition::new_def("SPEED", -129).is_none());
    for word in ["define", "Define", "nop", "NEG", "r0", "R15", "zero", "notcarry", "rng", "Pixel_X"]
    {
        assert!(Definition::new_def(word, 1).is_none(), "{}", word);
        assert!(Definition::new_opr(word).is_none(), "{}", word);
    }
    assert!(Definition::new_opr("r16").is_some());
    assert_eq!(Definition::new_opr("r16").unwrap().value, None);
}
