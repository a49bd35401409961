use clox::chunk::{Chunk, Opcode};
use clox::debug::{disassembly, disassembly_instruction, Instruction, Operand};

fn chunk_of(code: &[u8], lines: &[u32]) -> Chunk {
    let mut chunk = Chunk::default();
    for (byte, line) in code.iter().zip(lines) {
        chunk.write_byte(*byte, *line);
    }
    chunk
}

#[test]
fn instructions_are_read_with_their_operands() {
    let code = [
        Opcode::Constant.as_u8(), 7,
        Opcode::GetLocal.as_u8(), 3,
        Opcode::Jump.as_u8(), 2, 1,
        Opcode::Loop.as_u8(), 10, 0,
        Opcode::Return.as_u8(),
        99,
    ];
    let lines = [1, 1, 1, 1, 2, 2, 2, 3, 3, 3, 3, 3];
    let chunk = chunk_of(&code, &lines);
    let all = disassembly(&chunk);
    assert_eq!(
        all,
        vec![
            Instruction { offset: 0, line: Some(1), byte: 1, opcode: Some(Opcode::Constant), operand: Operand::Constant(7), next: 2 },
            Instruction { offset: 2, line: None, byte: 6, opcode: Some(Opcode::GetLocal), operand: Operand::Slot(3), next: 4 },
            Instruction { offset: 4, line: Some(2), byte: 21, opcode: Some(Opcode::Jump), operand: Operand::Target(4 + 3 + 258), next: 7 },
            Instruction { offset: 7, line: Some(3), byte: 23, opcode: Some(Opcode::Loop), operand: Operand::Target(0), next: 10 },
            Instruction { offset: 10, line: None, byte: 0, opcode: Some(Opcode::Return), operand: Operand::Absent, next: 11 },
            Instruction { offset: 11, line: None, byte: 99, opcode: None, operand: Operand::Absent, next: 12 },
        ]
    );
    assert_eq!(disassembly_instruction(&chunk, 4), all[2]);
}

#[test]
fn an_instruction_cut_short_reaches_to_the_end() {
    let chunk = chunk_of(&[Opcode::Nil.as_u8(), Opcode::JumpIfFalse.as_u8(), 1], &[1, 1, 1]);
    let all = disassembly(&chunk);
    assert_eq!(all.len(), 2);
    assert_eq!(all[1].operand, Operand::Broken);
    assert_eq!(all[1].next, 3);
    let chunk = chunk_of(&[Opcode::Loop.as_u8(), 4, 0], &[1, 1, 1]);
    assert_eq!(disassembly(&chunk)[0].operand, Operand::Broken);
    assert!(disassembly(&Chunk::default()).is_empty());
}
