//! Taking code apart again: what instruction stands at an offset of a chunk,
//! with its operand, its line and the offset of the instruction behind it.

use vstd::prelude::*;
use crate::chunk::{Chunk, ChunkView, Opcode};

verus! {

/// What follows an opcode.
#[derive(Debug, Clone, Copy, PartialEq, Eq, Structural)]
pub enum Operand {
    /// The instruction has no operand.
    Absent,
    /// A stack slot.
    Slot(u8),
    /// The id of a constant.
    Constant(u8),
    /// A jump, with the offset it leads to.
    Target(usize),
    /// The instruction has an operand, but the code ends before it does, or
    /// a `Loop` leads to before the first byte.
    Broken,
}

/// An instruction as it stands in a chunk.
#[derive(Debug, Clone, Copy, PartialEq, Eq, Structural)]
pub struct Instruction {
    /// Where the instruction begins.
    pub offset: usize,
    /// The source line, unless the byte before has the same.
    pub line: Option<u32>,
    /// The first byte.
    pub byte: u8,
    /// The opcode that the first byte encodes, if it encodes one.
    pub opcode: Option<Opcode>,
    pub operand: Operand,
    /// Where the next instruction begins.
    pub next: usize,
}

/// How many bytes an instruction with this opcode has.
pub open spec fn width(opcode: Opcode) -> int {
    match opcode {
        Opcode::Constant | Opcode::GetLocal | Opcode::SetLocal | Opcode::GetGlobal
        | Opcode::DefineGlobal | Opcode::SetGlobal => 2,
        Opcode::Jump | Opcode::JumpIfFalse | Opcode::Loop => 3,
        _ => 1,
    }
}

/// The operand of the instruction with `opcode` at `offset`, which lies
/// whole inside the code.
pub open spec fn operand_at(chunk: ChunkView, opcode: Opcode, offset: int) -> Operand {
    match opcode {
        Opcode::GetLocal | Opcode::SetLocal => Operand::Slot(chunk.code[offset + 1]),
        Opcode::Constant | Opcode::GetGlobal | Opcode::DefineGlobal
        | Opcode::SetGlobal => Operand::Constant(chunk.code[offset + 1]),
        Opcode::Jump | Opcode::JumpIfFalse => if offset + 3 + chunk.operand(offset + 1)
            <= usize::MAX {
            Operand::Target((offset + 3 + chunk.operand(offset + 1)) as usize)
        } else {
            Operand::Broken
        },
        Opcode::Loop => if chunk.operand(offset + 1) <= offset + 3 {
            Operand::Target((offset + 3 - chunk.operand(offset + 1)) as usize)
        } else {
            Operand::Broken
        },
        _ => Operand::Absent,
    }
}

/// The instruction at `offset`, an offset inside the code. A byte that is no
/// opcode counts as an instruction of one byte; an instruction that the end
/// of the code cuts short reaches to the end.
pub open spec fn instruction_at(chunk: ChunkView, offset: int) -> Instruction {
    let byte = chunk.code[offset];
    let line = if offset > 0 && chunk.lines[offset] == chunk.lines[offset - 1] {
        None
    } else {
        Some(chunk.lines[offset])
    };
    match Opcode::decode(byte) {
        None => Instruction {
            offset: offset as usize,
            line,
            byte,
            opcode: None,
            operand: Operand::Absent,
            next: (offset + 1) as usize,
        },
        Some(opcode) => if offset + width(opcode) <= chunk.code.len() {
            Instruction {
                offset: offset as usize,
                line,
                byte,
                opcode: Some(opcode),
                operand: operand_at(chunk, opcode, offset),
                next: (offset + width(opcode)) as usize,
            }
        } else {
            Instruction {
                offset: offset as usize,
                line,
                byte,
                opcode: Some(opcode),
                operand: Operand::Broken,
                next: chunk.code.len() as usize,
            }
        },
    }
}

/// Reads the instruction at `offset`.
pub fn disassembly_instruction(chunk: &Chunk, offset: usize) -> (r: Instruction)
    requires
        chunk@.wf(),
        offset < chunk@.code.len(),
    ensures
        r == instruction_at(chunk@, offset as int),
        offset < r.next <= chunk@.code.len(),
{
    let code = chunk.code();
    let len = code.len();
    let byte = code[offset];
    let line = chunk.get_line_if_first(offset);
    let opcode = match Opcode::from_u8(byte) {
        Some(opcode) => opcode,
        None => {
            return Instruction {
                offset,
                line,
                byte,
                opcode: None,
                operand: Operand::Absent,
                next: offset + 1,
            };
        },
    };
    let size: usize = match opcode {
        Opcode::Constant
        | Opcode::GetLocal
        | Opcode::SetLocal
        | Opcode::GetGlobal
        | Opcode::DefineGlobal
        | Opcode::SetGlobal => 2,
        Opcode::Jump | Opcode::JumpIfFalse | Opcode::Loop => 3,
        _ => 1,
    };
    if size > len - offset {
        return Instruction {
            offset,
            line,
            byte,
            opcode: Some(opcode),
            operand: Operand::Broken,
            next: len,
        };
    }
    let operand = match opcode {
        Opcode::GetLocal | Opcode::SetLocal => Operand::Slot(code[offset + 1]),
        Opcode::Constant
        | Opcode::GetGlobal
        | Opcode::DefineGlobal
        | Opcode::SetGlobal => Operand::Constant(code[offset + 1]),
        Opcode::Jump | Opcode::JumpIfFalse => {
            let jump: usize = code[offset + 1] as usize + 256 * (code[offset + 2] as usize);
            if jump <= usize::MAX - (offset + 3) {
                Operand::Target(offset + 3 + jump)
            } else {
                Operand::Broken
            }
        },
        Opcode::Loop => {
            let jump: usize = code[offset + 1] as usize + 256 * (code[offset + 2] as usize);
            if jump <= offset + 3 {
                Operand::Target(offset + 3 - jump)
            } else {
                Operand::Broken
            }
        },
        _ => Operand::Absent,
    };
    Instruction { offset, line, byte, opcode: Some(opcode), operand, next: offset + size }
}

/// Reads all instructions of the chunk, first to last.
pub fn disassembly(chunk: &Chunk) -> (r: Vec<Instruction>)
    requires
        chunk@.wf(),
    ensures
        r@ == instructions_from(chunk@, 0),
{
    let mut out: Vec<Instruction> = Vec::new();
    let mut offset: usize = 0;
    let len = chunk.len();
    while offset < len
        invariant
            chunk@.wf(),
            len == chunk@.code.len(),
            offset <= len,
            out@ + instructions_from(chunk@, offset as int) == instructions_from(chunk@, 0),
        decreases len - offset,
    {
        let instruction = disassembly_instruction(chunk, offset);
        proof {
            assert(out@.push(instruction) + instructions_from(chunk@, instruction.next as int)
                =~= out@ + instructions_from(chunk@, offset as int));
        }
        out.push(instruction);
        offset = instruction.next;
    }
    proof {
        assert(out@ + instructions_from(chunk@, offset as int) =~= out@);
    }
    out
}

/// The instructions from `offset` to the end of the code.
pub open spec fn instructions_from(chunk: ChunkView, offset: int) -> Seq<Instruction>
    decreases chunk.code.len() - offset,
{
    if 0 <= offset < chunk.code.len() {
        let first = instruction_at(chunk, offset);
        if offset < first.next <= chunk.code.len() {
            seq![first] + instructions_from(chunk, first.next as int)
        } else {
            seq![first]
        }
    } else {
        Seq::empty()
    }
}

} // verus!
