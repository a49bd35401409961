//! Bytecode chunks: instruction bytes, the line each byte came from, and the
//! pool of constants that instructions refer to by an 8-bit id.

use vstd::prelude::*;
use crate::value::{values_eq, Value, ValueView};

verus! {

/// The instructions of the machine. Each is one byte; `Constant`, the local
/// and global accesses take a one-byte operand, the three jumps a two-byte
/// little-endian offset.
#[derive(Debug, Clone, Copy, PartialEq, Eq, Structural)]
pub enum Opcode {
    Return,
    Constant,
    Nil,
    True,
    False,
    Pop,
    GetLocal,
    GetGlobal,
    DefineGlobal,
    SetLocal,
    SetGlobal,
    Equal,
    Greater,
    Less,
    Add,
    Subtract,
    Multiply,
    Divide,
    Not,
    Negate,
    Print,
    Jump,
    JumpIfFalse,
    Loop,
}

/// How many opcodes there are; their bytes are `0..OPCODE_COUNT`.
pub const OPCODE_COUNT: u8 = 24;

impl Opcode {
    /// The byte that encodes the opcode: its place in the declaration.
    pub open spec fn byte(self) -> u8 {
        match self {
            Opcode::Return => 0,
            Opcode::Constant => 1,
            Opcode::Nil => 2,
            Opcode::True => 3,
            Opcode::False => 4,
            Opcode::Pop => 5,
            Opcode::GetLocal => 6,
            Opcode::GetGlobal => 7,
            Opcode::DefineGlobal => 8,
            Opcode::SetLocal => 9,
            Opcode::SetGlobal => 10,
            Opcode::Equal => 11,
            Opcode::Greater => 12,
            Opcode::Less => 13,
            Opcode::Add => 14,
            Opcode::Subtract => 15,
            Opcode::Multiply => 16,
            Opcode::Divide => 17,
            Opcode::Not => 18,
            Opcode::Negate => 19,
            Opcode::Print => 20,
            Opcode::Jump => 21,
            Opcode::JumpIfFalse => 22,
            Opcode::Loop => 23,
        }
    }

    /// The opcode that `value` encodes, if any.
    pub open spec fn decode(value: u8) -> Option<Opcode> {
        if value < OPCODE_COUNT {
            Some(choose|op: Opcode| op.byte() == value)
        } else {
            None
        }
    }

    /// The byte that encodes the opcode.
    #[verifier::when_used_as_spec(byte)]
    pub fn as_u8(self) -> (b: u8)
        ensures
            b == self.byte(),
            b < OPCODE_COUNT,
    {
        match self {
            Opcode::Return => 0,
            Opcode::Constant => 1,
            Opcode::Nil => 2,
            Opcode::True => 3,
            Opcode::False => 4,
            Opcode::Pop => 5,
            Opcode::GetLocal => 6,
            Opcode::GetGlobal => 7,
            Opcode::DefineGlobal => 8,
            Opcode::SetLocal => 9,
            Opcode::SetGlobal => 10,
            Opcode::Equal => 11,
            Opcode::Greater => 12,
            Opcode::Less => 13,
            Opcode::Add => 14,
            Opcode::Subtract => 15,
            Opcode::Multiply => 16,
            Opcode::Divide => 17,
            Opcode::Not => 18,
            Opcode::Negate => 19,
            Opcode::Print => 20,
            Opcode::Jump => 21,
            Opcode::JumpIfFalse => 22,
            Opcode::Loop => 23,
        }
    }

    /// Decodes a byte: `Some` exactly for the bytes below [`OPCODE_COUNT`],
    /// and then the one opcode whose byte it is.
    pub fn from_u8(value: u8) -> (r: Option<Opcode>)
        ensures
            r == Opcode::decode(value),
            r is Some <==> value < OPCODE_COUNT,
            r is Some ==> r->0.byte() == value,
    {
        let r = match value {
            0 => Some(Opcode::Return),
            1 => Some(Opcode::Constant),
            2 => Some(Opcode::Nil),
            3 => Some(Opcode::True),
            4 => Some(Opcode::False),
            5 => Some(Opcode::Pop),
            6 => Some(Opcode::GetLocal),
            7 => Some(Opcode::GetGlobal),
            8 => Some(Opcode::DefineGlobal),
            9 => Some(Opcode::SetLocal),
            10 => Some(Opcode::SetGlobal),
            11 => Some(Opcode::Equal),
            12 => Some(Opcode::Greater),
            13 => Some(Opcode::Less),
            14 => Some(Opcode::Add),
            15 => Some(Opcode::Subtract),
            16 => Some(Opcode::Multiply),
            17 => Some(Opcode::Divide),
            18 => Some(Opcode::Not),
            19 => Some(Opcode::Negate),
            20 => Some(Opcode::Print),
            21 => Some(Opcode::Jump),
            22 => Some(Opcode::JumpIfFalse),
            23 => Some(Opcode::Loop),
            _ => None,
        };
        proof {
            if let Some(op) = r {
                Opcode::byte_is_injective(op, choose|o: Opcode| o.byte() == value);
            }
        }
        r
    }

    /// No two opcodes share a byte.
    pub proof fn byte_is_injective(a: Opcode, b: Opcode)
        ensures
            a.byte() == b.byte() ==> a == b,
            a.byte() < OPCODE_COUNT,
    {
    }
}

/// The id of a constant in a chunk's pool.
pub type Id = u8;

/// How many constants a chunk can hold: as many as an [`Id`] can name.
pub const MAX_CONSTANTS: usize = 256;

/// What a [`Chunk`] holds.
pub struct ChunkView {
    /// Opcodes and their operands.
    pub code: Seq<u8>,
    /// For each byte of `code`, the source line it was written for.
    pub lines: Seq<u32>,
    /// The constant pool.
    pub constants: Seq<ValueView>,
}

/// The index of the first element of `constants` that equals `value` as the
/// language compares, if there is one.
pub open spec fn first_equal(constants: Seq<ValueView>, value: ValueView) -> Option<int>
    decreases constants.len(),
{
    if constants.len() == 0 {
        None
    } else {
        match first_equal(constants.drop_last(), value) {
            Some(i) => Some(i),
            None => if values_eq(constants.last(), value) {
                Some(constants.len() - 1)
            } else {
                None
            },
        }
    }
}

/// [`first_equal`] finds an index that holds an equal value and has none
/// before it, and finds one whenever there is one.
pub proof fn first_equal_is_least(constants: Seq<ValueView>, value: ValueView)
    ensures
        match first_equal(constants, value) {
            Some(i) => 0 <= i < constants.len() && values_eq(constants[i], value) && forall|j: int|
                0 <= j < i ==> !#[trigger] values_eq(constants[j], value),
            None => forall|j: int|
                0 <= j < constants.len() ==> !#[trigger] values_eq(constants[j], value),
        },
    decreases constants.len(),
{
    if constants.len() > 0 {
        let front = constants.drop_last();
        first_equal_is_least(front, value);
        assert(forall|j: int| 0 <= j < front.len() ==> front[j] == constants[j]);
    }
}

impl ChunkView {
    /// The chunk that holds nothing.
    pub open spec fn empty() -> ChunkView {
        ChunkView { code: Seq::empty(), lines: Seq::empty(), constants: Seq::empty() }
    }

    /// Every byte has its line, and every constant an id.
    pub open spec fn wf(self) -> bool {
        self.lines.len() == self.code.len() && self.constants.len() <= MAX_CONSTANTS
    }

    /// The chunk with `byte` appended, written for `line`.
    pub open spec fn write(self, byte: u8, line: u32) -> ChunkView {
        ChunkView { code: self.code.push(byte), lines: self.lines.push(line), ..self }
    }

    /// The chunk with `value` appended to the pool.
    pub open spec fn add(self, value: ValueView) -> ChunkView {
        ChunkView { constants: self.constants.push(value), ..self }
    }

    /// The id of the first constant equal to `value`.
    pub open spec fn find(self, value: ValueView) -> Option<Id> {
        match first_equal(self.constants, value) {
            Some(i) => Some(i as u8),
            None => None,
        }
    }

    /// The chunk with the two bytes at `offset` replaced by `value`, low byte
    /// first.
    pub open spec fn patch(self, offset: int, value: u16) -> ChunkView {
        ChunkView {
            code: self.code.update(offset, (value % 256) as u8).update(
                offset + 1,
                (value / 256) as u8,
            ),
            ..self
        }
    }

    /// The 16-bit number that the two bytes at `offset` encode, low byte
    /// first.
    pub open spec fn operand(self, offset: int) -> int {
        self.code[offset] + 256 * self.code[offset + 1]
    }
}

/// A constant that has been added to a pool that held none equal to it is
/// found under the id it was given, by every value that equals it.
pub proof fn added_constant_is_found(chunk: ChunkView, value: ValueView, probe: ValueView)
    requires
        chunk.wf(),
        chunk.constants.len() < MAX_CONSTANTS,
        chunk.find(value) is None,
        values_eq(value, probe),
    ensures
        chunk.add(value).find(probe) == Some(chunk.constants.len() as u8),
{
    let after = chunk.add(value).constants;
    first_equal_is_least(chunk.constants, value);
    first_equal_is_least(after, probe);
    assert(after[chunk.constants.len() as int] == value);
    assert forall|j: int| 0 <= j < chunk.constants.len() implies !values_eq(
        #[trigger] after[j],
        probe,
    ) by {
        assert(after[j] == chunk.constants[j]);
        assert(!values_eq(chunk.constants[j], value));
        values_eq_is_transitive(after[j], probe, value);
    }
}

/// Where two values are equal as the language compares, a third one equals
/// both or neither. (No value equals a NaN, not even itself.)
pub proof fn values_eq_is_transitive(a: ValueView, b: ValueView, c: ValueView)
    requires
        values_eq(b, c) || values_eq(c, b),
    ensures
        values_eq(a, b) == values_eq(a, c),
        values_eq(b, a) == values_eq(c, a),
        values_eq(a, b) == values_eq(b, a),
{
}

/// The id under which a value is found stays the same whatever is added to
/// the pool and whatever code is written or patched afterwards.
pub proof fn found_constant_stays(chunk: ChunkView, probe: ValueView, later: ChunkView)
    requires
        chunk.find(probe) is Some,
        chunk.constants.len() <= later.constants.len(),
        later.constants.take(chunk.constants.len() as int) == chunk.constants,
    ensures
        later.find(probe) == chunk.find(probe),
    decreases later.constants.len() - chunk.constants.len(),
{
    if chunk.constants.len() < later.constants.len() {
        let shorter = ChunkView { constants: later.constants.drop_last(), ..later };
        assert(shorter.constants.take(chunk.constants.len() as int) =~= chunk.constants);
        found_constant_stays(chunk, probe, shorter);
    } else {
        assert(later.constants.take(chunk.constants.len() as int) =~= later.constants);
    }
}

/// Writing a byte records its line at the byte's offset and leaves the lines
/// of all earlier bytes as they were.
pub proof fn written_byte_has_its_line(chunk: ChunkView, byte: u8, line: u32)
    requires
        chunk.wf(),
    ensures
        chunk.write(byte, line).wf(),
        chunk.write(byte, line).lines[chunk.code.len() as int] == line,
        forall|o: int|
            0 <= o < chunk.code.len() ==> chunk.write(byte, line).lines[o] == chunk.lines[o],
{
}

/// A patched operand reads back as the value it was patched with; the patch
/// changes no line, no constant and no other byte.
pub proof fn patched_operand_reads_back(chunk: ChunkView, offset: int, value: u16)
    requires
        chunk.wf(),
        0 <= offset,
        offset + 1 < chunk.code.len(),
    ensures
        chunk.patch(offset, value).operand(offset) == value,
        chunk.patch(offset, value).wf(),
        chunk.patch(offset, value).lines == chunk.lines,
        chunk.patch(offset, value).constants == chunk.constants,
        forall|o: int|
            0 <= o < chunk.code.len() && o != offset && o != offset + 1 ==> chunk.patch(
                offset,
                value,
            ).code[o] == chunk.code[o],
{
}

/// A sequence of bytecode with its line map and constant pool.
pub struct Chunk {
    code: Vec<u8>,
    lines: Vec<u32>,
    constants: Vec<Value>,
}

impl View for Chunk {
    type V = ChunkView;

    closed spec fn view(&self) -> ChunkView {
        ChunkView {
            code: self.code@,
            lines: self.lines@,
            constants: self.constants@.map_values(|v: Value| v@),
        }
    }
}

impl Default for Chunk {
    /// An empty chunk.
    fn default() -> (r: Self)
        ensures
            r@ == ChunkView::empty(),
    {
        let r = Chunk { code: Vec::new(), lines: Vec::new(), constants: Vec::new() };
        assert(r@.constants =~= Seq::<ValueView>::empty());
        r
    }
}

impl Chunk {
    /// Appends `byte` and records that it was written for `line`.
    pub fn write_byte(&mut self, byte: u8, line: u32)
        ensures
            final(self)@ == old(self)@.write(byte, line),
    {
        self.code.push(byte);
        self.lines.push(line);
    }

    /// The bytes written so far.
    pub fn code(&self) -> (r: &[u8])
        ensures
            r@ == self@.code,
    {
        self.code.as_slice()
    }

    /// Overwrites the two bytes at `offset` with `value`, low byte first.
    /// Nothing else in the chunk changes.
    pub fn patch(&mut self, offset: usize, value: u16)
        requires
            offset + 1 < old(self)@.code.len(),
        ensures
            final(self)@ == old(self)@.patch(offset as int, value),
            final(self)@.operand(offset as int) == value,
    {
        let low: u8 = (value % 256) as u8;
        let high: u8 = (value / 256) as u8;
        let n = self.code.len();
        assert(offset + 1 < n);
        self.code[offset] = low;
        self.code[offset + 1] = high;
    }

    /// The id of the first constant equal to `value` as the language
    /// compares, or `None` if the pool holds no equal one.
    pub fn find_constant(&self, value: &Value) -> (r: Option<Id>)
        requires
            self@.wf(),
        ensures
            r == self@.find(value@),
    {
        let mut i: usize = 0;
        while i < self.constants.len()
            invariant
                i <= self.constants@.len() <= MAX_CONSTANTS,
                first_equal(self@.constants.take(i as int), value@) is None,
            decreases self.constants@.len() - i,
        {
            proof {
                assert(self@.constants.take(i + 1).drop_last() =~= self@.constants.take(i as int));
            }
            if self.constants[i].equals(value) {
                proof {
                    Self::first_equal_stays(self@.constants, i + 1, value@);
                }
                return Some(i as u8);
            }
            i += 1;
        }
        proof {
            assert(self@.constants.take(i as int) =~= self@.constants);
        }
        None
    }

    proof fn first_equal_stays(constants: Seq<ValueView>, n: int, value: ValueView)
        requires
            0 <= n <= constants.len(),
            first_equal(constants.take(n), value) is Some,
        ensures
            first_equal(constants, value) == first_equal(constants.take(n), value),
        decreases constants.len() - n,
    {
        if n < constants.len() {
            assert(constants.take(n + 1).drop_last() =~= constants.take(n));
            Self::first_equal_stays(constants, n + 1, value);
        } else {
            assert(constants.take(n) =~= constants);
        }
    }

    /// How many constants the pool holds.
    pub fn constants_len(&self) -> (n: usize)
        ensures
            n == self@.constants.len(),
    {
        self.constants.len()
    }

    /// Appends `value` to the pool and returns its id, which is the number of
    /// constants that were there before.
    pub fn add_constant(&mut self, value: Value) -> (id: Id)
        requires
            old(self)@.constants.len() < MAX_CONSTANTS,
        ensures
            final(self)@ == old(self)@.add(value@),
            id == old(self)@.constants.len(),
    {
        let id = self.constants.len();
        self.constants.push(value);
        proof {
            assert(final(self)@.constants =~= old(self)@.constants.push(value@));
        }
        id as u8
    }

    /// The constant with the given id.
    pub fn get_constant(&self, id: Id) -> (r: &Value)
        requires
            id < self@.constants.len(),
        ensures
            r@ == self@.constants[id as int],
    {
        &self.constants[id as usize]
    }

    /// The line that the byte at `offset` was written for.
    pub fn get_line(&self, offset: usize) -> (line: u32)
        requires
            offset < self@.lines.len(),
        ensures
            line == self@.lines[offset as int],
    {
        self.lines[offset]
    }

    /// The line of the byte at `offset`, unless the byte before it has the
    /// same line.
    pub fn get_line_if_first(&self, offset: usize) -> (r: Option<u32>)
        requires
            offset < self@.lines.len(),
        ensures
            r == if offset > 0 && self@.lines[offset as int] == self@.lines[offset - 1] {
                None
            } else {
                Some(self@.lines[offset as int])
            },
    {
        if offset > 0 && self.lines[offset] == self.lines[offset - 1] {
            None
        } else {
            Some(self.lines[offset])
        }
    }

    /// How many bytes of code have been written.
    pub fn len(&self) -> (n: usize)
        ensures
            n == self@.code.len(),
    {
        self.code.len()
    }
}

} // verus!
