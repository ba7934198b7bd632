use grease::bytecode::{Chunk, Decoded, DisassembledInstruction, OpCode, Value};

fn chunk_of(bytes: &[(u8, usize)]) -> Chunk {
    let mut c = Chunk::new();
    for &(b, line) in bytes {
        c.write(b, line);
    }
    c
}

#[test]
fn disassembly_lists_each_instruction_with_its_operands() {
    let mut c = chunk_of(&[
        (OpCode::Constant.to_byte(), 1),
        (0, 1),
        (OpCode::Add.to_byte(), 1),
        (OpCode::Jump.to_byte(), 2),
        (0, 2),
        (5, 2),
        (OpCode::Loop.to_byte(), 2),
        (0, 2),
        (2, 2),
        (255, 3),
        (OpCode::Return.to_byte(), 3),
    ]);
    c.add_constant(Value::Number("1".to_string()));
    assert!(c.can_disassemble());
    let d = c.disassemble();
    let expected = vec![
        DisassembledInstruction { offset: 0, line: Some(1), instruction: Decoded::Constant(OpCode::Constant, 0) },
        DisassembledInstruction { offset: 2, line: None, instruction: Decoded::Simple(OpCode::Add) },
        DisassembledInstruction { offset: 3, line: Some(2), instruction: Decoded::Jump(OpCode::Jump, 8) },
        DisassembledInstruction { offset: 6, line: None, instruction: Decoded::Jump(OpCode::Loop, 4) },
        DisassembledInstruction { offset: 9, line: Some(3), instruction: Decoded::Unknown(255) },
        DisassembledInstruction { offset: 10, line: None, instruction: Decoded::Simple(OpCode::Return) },
    ];
    assert_eq!(d, expected);
}

#[test]
fn disassembly_instruction_gives_next_offset() {
    let c = chunk_of(&[(OpCode::GetLocal.to_byte(), 7), (3, 7), (OpCode::Pop.to_byte(), 8)]);
    let (first, next) = c.disassemble_instruction(0);
    assert_eq!(first.instruction, Decoded::Byte(OpCode::GetLocal, 3));
    assert_eq!(first.line, Some(7));
    assert_eq!(next, 2);
    let (second, after) = c.disassemble_instruction(2);
    assert_eq!(second.instruction, Decoded::Simple(OpCode::Pop));
    assert_eq!(second.line, Some(8));
    assert_eq!(after, 3);
}

#[test]
fn disassembly_refused_for_broken_chunks() {
    // an operand missing at the end of the code
    let c = chunk_of(&[(OpCode::Constant.to_byte(), 1)]);
    assert!(!c.can_disassemble());
    // a constant index with no constant behind it
    let c = chunk_of(&[(OpCode::Constant.to_byte(), 1), (0, 1)]);
    assert!(!c.can_disassemble());
    // a backward jump whose distance does not fit in 16 signed bits
    let c = chunk_of(&[(OpCode::Loop.to_byte(), 1), (0x80, 1), (0, 1)]);
    assert!(!c.can_disassemble());
    // an empty chunk lists nothing
    let c = Chunk::new();
    assert!(c.can_disassemble());
    assert!(c.disassemble().is_empty());
}

#[test]
fn mnemonics_follow_the_listing_names() {
    assert_eq!(OpCode::GetGlobal.mnemonic(), "GET_GLOBAL");
    assert_eq!(OpCode::JumpIfFalse.mnemonic(), "JUMP_IF_FALSE");
    assert_eq!(OpCode::GetModule.mnemonic(), "GET_MODULE");
}
