//! The stack machine. It executes one instruction per call of [`Vm::step`]
//! and tells its caller what the instruction asks of the world outside:
//! nothing, a line of output, one rounded operation on two doubles, or the
//! end of the run.

use vstd::prelude::*;
use vstd::string::StringExecFns;
use vstd::utf8::encode_utf8;
use crate::chunk::{Chunk, ChunkView, Opcode};
use crate::compiler::model::compiled;
use crate::compiler::parser::diagnostic_views;
use crate::compiler::{compile, CompileError};
use crate::table::Table;
use crate::value::{
    falsey, number_less, number_lt, number_neg, number_negate, values_eq, Value, ValueView,
};

verus! {

/// How many values the stack can hold.
pub const STACK_MAX: usize = 256;

/// The four operations on two doubles whose result has to be rounded.
#[derive(Debug, Clone, Copy, PartialEq, Eq, Structural)]
pub enum Arith {
    Add,
    Subtract,
    Multiply,
    Divide,
}

/// Ways in which a chunk can fail to be one that the compiler made. The
/// machine stops at such an instruction and leaves its state as it was.
#[derive(Debug, Clone, Copy, PartialEq, Eq, Structural)]
pub enum Fault {
    /// The instruction pointer, an operand or a jump target lies outside the
    /// code.
    CodeOverrun,
    /// A push onto a full stack.
    StackOverflow,
    /// A read from an empty stack, or one value where two are needed.
    StackUnderflow,
    /// A constant id past the pool, or a name that is no string.
    BadConstant,
    /// A local slot at or above the top of the stack.
    BadSlot,
    /// A definition for which the globals table cannot grow.
    GlobalsFull,
}

/// How an interpretation can fail.
#[derive(Debug)]
pub enum Error {
    /// The source did not compile.
    Compile(CompileError),
    /// The run ended in a runtime error.
    Runtime,
}

impl From<CompileError> for Error {
    fn from(value: CompileError) -> (r: Self) {
        Error::Compile(value)
    }
}

impl vstd::std_specs::convert::FromSpecImpl<CompileError> for Error {
    open spec fn obeys_from_spec() -> bool {
        true
    }

    open spec fn from_spec(value: CompileError) -> Self {
        Error::Compile(value)
    }
}

/// What a step leaves for the caller to do.
pub enum Effect {
    /// Nothing.
    Continue,
    /// Write the value and a line feed to the output.
    Print(Value),
    /// Compute the operation on the two doubles, left operand first, and hand
    /// the result to [`Vm::resume`].
    Arithmetic(Arith, u64, u64),
    /// The run has ended with `Return`.
    Halt,
    /// The run has ended in a runtime error at `line`; the stack is empty.
    RuntimeError { message: String, line: u32 },
    /// The byte is no opcode.
    UnknownInstruction(u8),
    /// The chunk is malformed.
    Fault(Fault),
}

/// What an [`Effect`] holds.
pub enum EffectView {
    Continue,
    Print(ValueView),
    Arithmetic(Arith, u64, u64),
    Halt,
    RuntimeError { message: Seq<char>, line: u32 },
    UnknownInstruction(u8),
    Fault(Fault),
}

impl View for Effect {
    type V = EffectView;

    open spec fn view(&self) -> EffectView {
        match self {
            Effect::Continue => EffectView::Continue,
            Effect::Print(v) => EffectView::Print(v@),
            Effect::Arithmetic(op, a, b) => EffectView::Arithmetic(*op, *a, *b),
            Effect::Halt => EffectView::Halt,
            Effect::RuntimeError { message, line } => EffectView::RuntimeError {
                message: message@,
                line: *line,
            },
            Effect::UnknownInstruction(b) => EffectView::UnknownInstruction(*b),
            Effect::Fault(f) => EffectView::Fault(*f),
        }
    }
}

/// The state of a [`Vm`].
pub struct VmView {
    /// The code being run.
    pub chunk: ChunkView,
    /// Offset of the next instruction.
    pub ip: int,
    /// The value stack, bottom first.
    pub stack: Seq<ValueView>,
    /// The global variables.
    pub globals: Map<Seq<char>, ValueView>,
    /// The operation whose result the machine waits for.
    pub pending: Option<(Arith, u64, u64)>,
}

/// The message for a global that has no value.
pub open spec fn undefined_variable(name: Seq<char>) -> Seq<char> {
    "Undefined variable '"@ + name + "'"@
}

impl VmView {
    /// The code has its line map and the stack fits.
    pub open spec fn wf(self) -> bool {
        &&& self.chunk.wf()
        &&& self.chunk.code.len() <= usize::MAX
        &&& self.stack.len() <= STACK_MAX
        &&& 0 <= self.ip
        &&& self.pending is Some ==> self.stack.len() < STACK_MAX
    }

    /// The operand byte of the instruction at `ip`.
    pub open spec fn operand(self) -> int {
        self.chunk.code[self.ip + 1] as int
    }

    /// The second value from the top.
    pub open spec fn left(self) -> ValueView {
        self.stack[self.stack.len() - 2]
    }

    /// The value on top.
    pub open spec fn top(self) -> ValueView {
        self.stack.last()
    }

    /// The stack without its top `n` values.
    pub open spec fn without(self, n: int) -> Seq<ValueView> {
        self.stack.take(self.stack.len() - n)
    }

    /// The outcome of a malformed instruction: nothing moves.
    pub open spec fn fault(self, fault: Fault) -> (VmView, EffectView) {
        (self, EffectView::Fault(fault))
    }

    /// Execution goes on at `ip` with `stack`.
    pub open spec fn goes_on(self, ip: int, stack: Seq<ValueView>) -> (VmView, EffectView) {
        (VmView { ip, stack, ..self }, EffectView::Continue)
    }

    /// A runtime error in the instruction that ends before `ip`: the stack is
    /// emptied, and the line reported is that of the instruction's last byte.
    pub open spec fn fails(self, ip: int, message: Seq<char>) -> (VmView, EffectView) {
        (
            VmView { ip, stack: Seq::empty(), ..self },
            EffectView::RuntimeError { message, line: self.chunk.lines[ip - 1] },
        )
    }

    /// Pushes `value` and goes on behind an instruction of `width` bytes.
    pub open spec fn pushes(self, width: int, value: ValueView) -> (VmView, EffectView) {
        if self.stack.len() >= STACK_MAX {
            self.fault(Fault::StackOverflow)
        } else {
            self.goes_on(self.ip + width, self.stack.push(value))
        }
    }

    /// Replaces the top `n` values by `value`.
    pub open spec fn replaces(self, n: int, value: ValueView) -> (VmView, EffectView) {
        self.goes_on(self.ip + 1, self.without(n).push(value))
    }

    /// The name that the operand of the instruction at `ip` refers to, if the
    /// operand is there and names a string constant.
    pub open spec fn name(self) -> Option<Seq<char>> {
        if self.ip + 1 < self.chunk.code.len() && self.operand() < self.chunk.constants.len() {
            match self.chunk.constants[self.operand()] {
                ValueView::String(name) => Some(name),
                _ => None,
            }
        } else {
            None
        }
    }

    /// Why [`VmView::name`] is `None`.
    pub open spec fn name_fault(self) -> Fault {
        if self.ip + 1 < self.chunk.code.len() {
            Fault::BadConstant
        } else {
            Fault::CodeOverrun
        }
    }

    /// A comparison or an arithmetic instruction other than `Add`, on the top
    /// two values.
    pub open spec fn numeric(self, op: Opcode) -> (VmView, EffectView) {
        if self.stack.len() < 2 {
            self.fault(Fault::StackUnderflow)
        } else {
            match (self.left(), self.top()) {
                (ValueView::Number(a), ValueView::Number(b)) => match op {
                    Opcode::Greater => self.replaces(2, ValueView::Bool(number_lt(b, a))),
                    Opcode::Less => self.replaces(2, ValueView::Bool(number_lt(a, b))),
                    Opcode::Subtract => self.awaits(Arith::Subtract, a, b),
                    Opcode::Multiply => self.awaits(Arith::Multiply, a, b),
                    _ => self.awaits(Arith::Divide, a, b),
                },
                _ => self.fails(self.ip + 1, "Operands must be numbers."@),
            }
        }
    }

    /// The top two values leave the stack and the machine waits for the
    /// result of `op` on them.
    pub open spec fn awaits(self, op: Arith, a: u64, b: u64) -> (VmView, EffectView) {
        (
            VmView { ip: self.ip + 1, stack: self.without(2), pending: Some((op, a, b)), ..self },
            EffectView::Arithmetic(op, a, b),
        )
    }

    /// A jump of the instruction at `ip` to `target`.
    pub open spec fn jumps(self, target: int) -> (VmView, EffectView) {
        if 0 <= target <= self.chunk.code.len() {
            self.goes_on(target, self.stack)
        } else {
            self.fault(Fault::CodeOverrun)
        }
    }

    /// What the instruction `op` at `ip` does.
    pub open spec fn executes(self, op: Opcode, room: bool) -> (VmView, EffectView) {
        let code = self.chunk.code;
        let ip = self.ip;
        let depth = self.stack.len();
        match op {
            Opcode::Return => (VmView { ip: ip + 1, ..self }, EffectView::Halt),
            Opcode::Constant => if ip + 1 >= code.len() {
                self.fault(Fault::CodeOverrun)
            } else if self.operand() >= self.chunk.constants.len() {
                self.fault(Fault::BadConstant)
            } else {
                self.pushes(2, self.chunk.constants[self.operand()])
            },
            Opcode::Nil => self.pushes(1, ValueView::Nil),
            Opcode::True => self.pushes(1, ValueView::Bool(true)),
            Opcode::False => self.pushes(1, ValueView::Bool(false)),
            Opcode::Pop => if depth < 1 {
                self.fault(Fault::StackUnderflow)
            } else {
                self.goes_on(ip + 1, self.without(1))
            },
            Opcode::GetLocal => if ip + 1 >= code.len() {
                self.fault(Fault::CodeOverrun)
            } else if self.operand() >= depth {
                self.fault(Fault::BadSlot)
            } else {
                self.pushes(2, self.stack[self.operand()])
            },
            Opcode::SetLocal => if ip + 1 >= code.len() {
                self.fault(Fault::CodeOverrun)
            } else if self.operand() >= depth {
                self.fault(Fault::BadSlot)
            } else {
                self.goes_on(ip + 2, self.stack.update(self.operand(), self.top()))
            },
            Opcode::GetGlobal => match self.name() {
                None => self.fault(self.name_fault()),
                Some(name) => if self.globals.contains_key(name) {
                    self.pushes(2, self.globals[name])
                } else {
                    self.fails(ip + 2, undefined_variable(name))
                },
            },
            Opcode::DefineGlobal => match self.name() {
                None => self.fault(self.name_fault()),
                Some(name) => if depth < 1 {
                    self.fault(Fault::StackUnderflow)
                } else if !room {
                    self.fault(Fault::GlobalsFull)
                } else {
                    (
                        VmView {
                            ip: ip + 2,
                            stack: self.without(1),
                            globals: self.globals.insert(name, self.top()),
                            ..self
                        },
                        EffectView::Continue,
                    )
                },
            },
            Opcode::SetGlobal => match self.name() {
                None => self.fault(self.name_fault()),
                Some(name) => if !self.globals.contains_key(name) {
                    self.fails(ip + 2, undefined_variable(name))
                } else if depth < 1 {
                    self.fault(Fault::StackUnderflow)
                } else {
                    (
                        VmView {
                            ip: ip + 2,
                            globals: self.globals.insert(name, self.top()),
                            ..self
                        },
                        EffectView::Continue,
                    )
                },
            },
            Opcode::Equal => if depth < 2 {
                self.fault(Fault::StackUnderflow)
            } else {
                self.replaces(2, ValueView::Bool(values_eq(self.left(), self.top())))
            },
            Opcode::Greater | Opcode::Less | Opcode::Subtract | Opcode::Multiply
            | Opcode::Divide => self.numeric(op),
            Opcode::Add => if depth < 2 {
                self.fault(Fault::StackUnderflow)
            } else {
                match (self.left(), self.top()) {
                    (ValueView::String(a), ValueView::String(b)) => self.replaces(
                        2,
                        ValueView::String(a + b),
                    ),
                    (ValueView::Number(a), ValueView::Number(b)) => self.awaits(Arith::Add, a, b),
                    _ => self.fails(ip + 1, "Operands must be numbers."@),
                }
            },
            Opcode::Not => if depth < 1 {
                self.fault(Fault::StackUnderflow)
            } else {
                self.replaces(1, ValueView::Bool(falsey(self.top())))
            },
            Opcode::Negate => if depth < 1 {
                self.fault(Fault::StackUnderflow)
            } else {
                match self.top() {
                    ValueView::Number(n) => self.replaces(1, ValueView::Number(number_neg(n))),
                    _ => self.fails(ip + 1, "Operand must be a number."@),
                }
            },
            Opcode::Print => if depth < 1 {
                self.fault(Fault::StackUnderflow)
            } else {
                (
                    VmView { ip: ip + 1, stack: self.without(1), ..self },
                    EffectView::Print(self.top()),
                )
            },
            Opcode::Jump => if ip + 2 >= code.len() {
                self.fault(Fault::CodeOverrun)
            } else {
                self.jumps(ip + 3 + self.chunk.operand(ip + 1))
            },
            Opcode::JumpIfFalse => if ip + 2 >= code.len() {
                self.fault(Fault::CodeOverrun)
            } else if depth < 1 {
                self.fault(Fault::StackUnderflow)
            } else if falsey(self.top()) {
                self.jumps(ip + 3 + self.chunk.operand(ip + 1))
            } else {
                self.goes_on(ip + 3, self.stack)
            },
            Opcode::Loop => if ip + 2 >= code.len() {
                self.fault(Fault::CodeOverrun)
            } else {
                self.jumps(ip + 3 - self.chunk.operand(ip + 1))
            },
        }
    }

    /// One step of the machine. `room` says whether the globals table can
    /// take a further key.
    ///
    /// While the result of an operation is awaited, a step asks for it again
    /// and changes nothing.
    pub open spec fn step(self, room: bool) -> (VmView, EffectView) {
        match self.pending {
            Some((op, a, b)) => (self, EffectView::Arithmetic(op, a, b)),
            None => if self.ip >= self.chunk.code.len() {
                self.fault(Fault::CodeOverrun)
            } else {
                match Opcode::decode(self.chunk.code[self.ip]) {
                    None => (
                        VmView { ip: self.ip + 1, ..self },
                        EffectView::UnknownInstruction(self.chunk.code[self.ip]),
                    ),
                    Some(op) => self.executes(op, room),
                }
            },
        }
    }

    /// The machine after the awaited result has come in: it is pushed as a
    /// number. Without an operation pending nothing changes.
    pub open spec fn resume(self, result: u64) -> VmView {
        match self.pending {
            Some(_) => VmView {
                stack: self.stack.push(ValueView::Number(result)),
                pending: None,
                ..self
            },
            None => self,
        }
    }
}

/// What a sequence of values holds.
pub open spec fn value_views(values: Seq<Value>) -> Seq<ValueView> {
    values.map_values(|v: Value| v@)
}

/// The value stack: at most [`STACK_MAX`] values.
struct Stack {
    values: Vec<Value>,
}

impl View for Stack {
    type V = Seq<ValueView>;

    closed spec fn view(&self) -> Seq<ValueView> {
        value_views(self.values@)
    }
}

impl Stack {
    fn new() -> (r: Self)
        ensures
            r@ == Seq::<ValueView>::empty(),
    {
        let r = Stack { values: Vec::new() };
        assert(r@ =~= Seq::<ValueView>::empty());
        r
    }

    fn reset(&mut self)
        ensures
            final(self)@ == Seq::<ValueView>::empty(),
    {
        self.values.clear();
        assert(self@ =~= Seq::<ValueView>::empty());
    }

    fn len(&self) -> (n: usize)
        ensures
            n == self@.len(),
    {
        self.values.len()
    }

    fn push(&mut self, value: Value)
        requires
            old(self)@.len() < STACK_MAX,
        ensures
            final(self)@ == old(self)@.push(value@),
    {
        self.values.push(value);
        assert(self@ =~= old(self)@.push(value@));
    }

    fn pop(&mut self) -> (value: Value)
        requires
            old(self)@.len() > 0,
        ensures
            final(self)@ == old(self)@.take(old(self)@.len() - 1),
            value@ == old(self)@.last(),
    {
        let value = self.values.pop();
        assert(self@ =~= old(self)@.take(old(self)@.len() - 1));
        match value {
            Some(value) => value,
            None => Value::Nil,
        }
    }

    fn peek(&self, distance: usize) -> (value: &Value)
        requires
            distance < self@.len(),
        ensures
            value@ == self@[self@.len() - distance - 1],
    {
        &self.values[self.values.len() - distance - 1]
    }

    fn get(&self, slot: usize) -> (value: &Value)
        requires
            slot < self@.len(),
        ensures
            value@ == self@[slot as int],
    {
        &self.values[slot]
    }

    fn set(&mut self, slot: usize, value: Value)
        requires
            slot < old(self)@.len(),
        ensures
            final(self)@ == old(self)@.update(slot as int, value@),
    {
        self.values[slot] = value;
        assert(self@ =~= old(self)@.update(slot as int, value@));
    }
}

/// The virtual machine: the chunk it runs, where it stands in it, its value
/// stack and the global variables, which outlive a run.
pub struct Vm {
    chunk: Chunk,
    ip: usize,
    stack: Stack,
    globals: Table,
    pending: Option<(Arith, u64, u64)>,
}

impl View for Vm {
    type V = VmView;

    closed spec fn view(&self) -> VmView {
        VmView {
            chunk: self.chunk@,
            ip: self.ip as int,
            stack: self.stack@,
            globals: self.globals@,
            pending: self.pending,
        }
    }
}

impl Default for Vm {
    /// A machine with no code, an empty stack and no globals.
    fn default() -> (r: Self)
        ensures
            r.wf(),
            r@.chunk.code.len() == 0,
            r@.ip == 0,
            r@.stack.len() == 0,
            r@.globals == Map::<Seq<char>, ValueView>::empty(),
            r@.pending is None,
    {
        Vm {
            chunk: Chunk::default(),
            ip: 0,
            stack: Stack::new(),
            globals: Table::default(),
            pending: None,
        }
    }
}

impl Vm {
    /// The machine's invariant.
    pub closed spec fn wf(&self) -> bool {
        self@.wf() && self.globals.wf()
    }

    /// Whether the globals table can take a further key.
    pub closed spec fn has_room(&self) -> bool {
        self.globals.has_room()
    }

    /// Tests whether the globals table can take a further key.
    pub fn globals_have_room(&self) -> (r: bool)
        requires
            self.wf(),
        ensures
            r == self.has_room(),
    {
        self.globals.check_room()
    }

    /// The chunk being run.
    pub fn chunk(&self) -> (r: &Chunk)
        ensures
            r@ == self@.chunk,
    {
        &self.chunk
    }

    /// The offset of the next instruction.
    pub fn ip(&self) -> (r: usize)
        ensures
            r == self@.ip,
    {
        self.ip
    }

    /// The values on the stack, bottom first.
    pub fn stack(&self) -> (r: &[Value])
        ensures
            value_views(r@) == self@.stack,
    {
        self.stack.values.as_slice()
    }

    /// Hands in the result of the operation that the last step asked for.
    /// Returns whether one was awaited; if none was, nothing changes.
    pub fn resume(&mut self, result: u64) -> (awaited: bool)
        requires
            old(self).wf(),
        ensures
            final(self).wf(),
            final(self)@ == old(self)@.resume(result),
            awaited == old(self)@.pending is Some,
    {
        match self.pending {
            Some(_) => {
                self.stack.push(Value::Number(result));
                self.pending = None;
                true
            },
            None => false,
        }
    }

    /// Installs `chunk` and gets ready to run it from its first byte with an
    /// empty stack. The globals stay.
    pub fn load(&mut self, chunk: Chunk)
        requires
            old(self).wf(),
            chunk@.wf(),
        ensures
            final(self).wf(),
            final(self)@ == (VmView {
                chunk: chunk@,
                ip: 0,
                stack: Seq::empty(),
                pending: None,
                ..old(self)@
            }),
    {
        let _ = chunk.len();
        self.chunk = chunk;
        self.ip = 0;
        self.stack.reset();
        self.pending = None;
    }

    /// Compiles `source` into a fresh chunk and, if it compiles, gets ready to
    /// run it: the chunk is installed, the instruction pointer is at its
    /// first byte and the stack is empty. The caller then calls
    /// [`Vm::step`] until a step ends the run. If `source` does not compile,
    /// the machine stays as it is.
    ///
    /// `literals` are the values of the number tokens of `source`, as
    /// [`compile`] takes them.
    pub fn interpret(&mut self, source: &str, literals: &[u64]) -> (r: Result<(), Error>)
        requires
            old(self).wf(),
            encode_utf8(source@).len() < u32::MAX,
        ensures
            final(self).wf(),
            match r {
                Ok(_) => {
                    &&& !compiled(encode_utf8(source@), literals@, ChunkView::empty()).had_error
                    &&& final(self)@ == (VmView {
                        chunk: compiled(
                            encode_utf8(source@),
                            literals@,
                            ChunkView::empty(),
                        ).chunk,
                        ip: 0,
                        stack: Seq::empty(),
                        pending: None,
                        ..old(self)@
                    })
                },
                Err(Error::Compile(error)) => {
                    &&& compiled(encode_utf8(source@), literals@, ChunkView::empty()).had_error
                    &&& diagnostic_views(error.diagnostics@) == compiled(
                        encode_utf8(source@),
                        literals@,
                        ChunkView::empty(),
                    ).diagnostics
                    &&& final(self)@ == old(self)@
                },
                Err(Error::Runtime) => false,
            },
    {
        let mut chunk = Chunk::default();
        proof {
            assert(chunk@ =~= ChunkView::empty());
        }
        match compile(source, literals, &mut chunk) {
            Ok(_) => {
                self.load(chunk);
                Ok(())
            },
            Err(error) => Err(Error::Compile(error)),
        }
    }

    fn runtime_error(&mut self, ip: usize, message: String) -> (effect: Effect)
        requires
            old(self).wf(),
            0 < ip <= old(self)@.chunk.code.len(),
        ensures
            final(self).wf(),
            (final(self)@, effect@) == old(self)@.fails(ip as int, message@),
    {
        let line = self.chunk.get_line(ip - 1);
        self.ip = ip;
        self.stack.reset();
        Effect::RuntimeError { message, line }
    }

    fn push(&mut self, width: usize, value: Value) -> (effect: Effect)
        requires
            old(self).wf(),
            old(self)@.pending is None,
            old(self)@.ip + width <= old(self)@.chunk.code.len(),
        ensures
            final(self).wf(),
            (final(self)@, effect@) == old(self)@.pushes(width as int, value@),
    {
        if self.stack.len() >= STACK_MAX {
            return Effect::Fault(Fault::StackOverflow);
        }
        self.stack.push(value);
        self.ip = self.ip + width;
        Effect::Continue
    }

    fn replace(&mut self, n: usize, value: Value) -> (effect: Effect)
        requires
            old(self).wf(),
            old(self)@.pending is None,
            old(self)@.ip < old(self)@.chunk.code.len(),
            1 <= n <= 2,
            n <= old(self)@.stack.len(),
        ensures
            final(self).wf(),
            (final(self)@, effect@) == old(self)@.replaces(n as int, value@),
    {
        self.stack.pop();
        if n == 2 {
            self.stack.pop();
        }
        assert(self@.stack =~= old(self)@.without(n as int));
        self.stack.push(value);
        self.ip = self.ip + 1;
        Effect::Continue
    }

    fn wait_for(&mut self, op: Arith, a: u64, b: u64) -> (effect: Effect)
        requires
            old(self).wf(),
            old(self)@.pending is None,
            old(self)@.ip < old(self)@.chunk.code.len(),
            2 <= old(self)@.stack.len(),
        ensures
            final(self).wf(),
            (final(self)@, effect@) == old(self)@.awaits(op, a, b),
    {
        self.stack.pop();
        self.stack.pop();
        assert(self@.stack =~= old(self)@.without(2));
        self.pending = Some((op, a, b));
        self.ip = self.ip + 1;
        Effect::Arithmetic(op, a, b)
    }

    fn binary_op(&mut self, op: Opcode) -> (effect: Effect)
        requires
            old(self).wf(),
            old(self)@.pending is None,
            old(self)@.ip < old(self)@.chunk.code.len(),
            op == Opcode::Greater || op == Opcode::Less || op == Opcode::Subtract || op
                == Opcode::Multiply || op == Opcode::Divide,
        ensures
            final(self).wf(),
            (final(self)@, effect@) == old(self)@.numeric(op),
    {
        if self.stack.len() < 2 {
            return Effect::Fault(Fault::StackUnderflow);
        }
        let operands = match (self.stack.peek(1), self.stack.peek(0)) {
            (Value::Number(a), Value::Number(b)) => Some((*a, *b)),
            _ => None,
        };
        match operands {
            Some((a, b)) => match op {
                Opcode::Greater => self.replace(2, Value::Bool(number_less(b, a))),
                Opcode::Less => self.replace(2, Value::Bool(number_less(a, b))),
                Opcode::Subtract => self.wait_for(Arith::Subtract, a, b),
                Opcode::Multiply => self.wait_for(Arith::Multiply, a, b),
                _ => self.wait_for(Arith::Divide, a, b),
            },
            None => {
                let ip = self.ip + 1;
                self.runtime_error(ip, "Operands must be numbers.".to_owned())
            },
        }
    }

    /// The name that the operand of the current instruction refers to.
    fn read_string(&self) -> (r: Result<String, Fault>)
        requires
            self.wf(),
        ensures
            match r {
                Ok(name) => self@.name() == Some(name@),
                Err(fault) => self@.name() is None && fault == self@.name_fault(),
            },
    {
        let code = self.chunk.code();
        if self.ip >= code.len() || self.ip + 1 >= code.len() {
            return Err(Fault::CodeOverrun);
        }
        let id = code[self.ip + 1];
        if id as usize >= self.chunk.constants_len() {
            return Err(Fault::BadConstant);
        }
        match self.chunk.get_constant(id) {
            Value::String(name) => Ok(name.as_str().to_owned()),
            _ => Err(Fault::BadConstant),
        }
    }

    fn undefined(&mut self, name: String) -> (effect: Effect)
        requires
            old(self).wf(),
            old(self)@.ip + 2 <= old(self)@.chunk.code.len(),
        ensures
            final(self).wf(),
            (final(self)@, effect@) == old(self)@.fails(
                old(self)@.ip + 2,
                undefined_variable(name@),
            ),
    {
        let message = "Undefined variable '".to_owned().concat(name.as_str()).concat("'");
        let ip = self.ip + 2;
        self.runtime_error(ip, message)
    }

    fn jump(&mut self, forward: bool) -> (effect: Effect)
        requires
            old(self).wf(),
            old(self)@.pending is None,
            old(self)@.ip + 2 < old(self)@.chunk.code.len(),
        ensures
            final(self).wf(),
            (final(self)@, effect@) == old(self)@.jumps(
                if forward {
                    old(self)@.ip + 3 + old(self)@.chunk.operand(old(self)@.ip + 1)
                } else {
                    old(self)@.ip + 3 - old(self)@.chunk.operand(old(self)@.ip + 1)
                },
            ),
    {
        let code = self.chunk.code();
        let low: usize = code[self.ip + 1] as usize;
        let high: usize = code[self.ip + 2] as usize;
        let offset: usize = low + 256 * high;
        let next = self.ip + 3;
        if forward {
            if offset > code.len() - next {
                return Effect::Fault(Fault::CodeOverrun);
            }
            self.ip = next + offset;
        } else {
            if offset > next {
                return Effect::Fault(Fault::CodeOverrun);
            }
            self.ip = next - offset;
        }
        Effect::Continue
    }

    fn constant(&mut self) -> (effect: Effect)
        requires
            old(self).wf(),
            old(self)@.pending is None,
            old(self)@.ip < old(self)@.chunk.code.len(),
        ensures
            final(self).wf(),
            (final(self)@, effect@) == old(self)@.executes(Opcode::Constant, old(self).has_room()),
    {
        if self.chunk.len() - self.ip < 2 {
            return Effect::Fault(Fault::CodeOverrun);
        }
        let id = self.chunk.code()[self.ip + 1];
        if id as usize >= self.chunk.constants_len() {
            return Effect::Fault(Fault::BadConstant);
        }
        let constant = self.chunk.get_constant(id).clone();
        self.push(2, constant)
    }

    fn pop(&mut self) -> (effect: Effect)
        requires
            old(self).wf(),
            old(self)@.pending is None,
            old(self)@.ip < old(self)@.chunk.code.len(),
        ensures
            final(self).wf(),
            (final(self)@, effect@) == old(self)@.executes(Opcode::Pop, old(self).has_room()),
    {
        if self.stack.len() < 1 {
            return Effect::Fault(Fault::StackUnderflow);
        }
        self.stack.pop();
        self.ip = self.ip + 1;
        Effect::Continue
    }

    fn get_local(&mut self) -> (effect: Effect)
        requires
            old(self).wf(),
            old(self)@.pending is None,
            old(self)@.ip < old(self)@.chunk.code.len(),
        ensures
            final(self).wf(),
            (final(self)@, effect@) == old(self)@.executes(Opcode::GetLocal, old(self).has_room()),
    {
        if self.chunk.len() - self.ip < 2 {
            return Effect::Fault(Fault::CodeOverrun);
        }
        let slot = self.chunk.code()[self.ip + 1] as usize;
        if slot >= self.stack.len() {
            return Effect::Fault(Fault::BadSlot);
        }
        let value = self.stack.get(slot).clone();
        self.push(2, value)
    }

    fn set_local(&mut self) -> (effect: Effect)
        requires
            old(self).wf(),
            old(self)@.pending is None,
            old(self)@.ip < old(self)@.chunk.code.len(),
        ensures
            final(self).wf(),
            (final(self)@, effect@) == old(self)@.executes(Opcode::SetLocal, old(self).has_room()),
    {
        if self.chunk.len() - self.ip < 2 {
            return Effect::Fault(Fault::CodeOverrun);
        }
        let slot = self.chunk.code()[self.ip + 1] as usize;
        if slot >= self.stack.len() {
            return Effect::Fault(Fault::BadSlot);
        }
        let value = self.stack.peek(0).clone();
        self.stack.set(slot, value);
        self.ip = self.ip + 2;
        Effect::Continue
    }

    fn get_global(&mut self) -> (effect: Effect)
        requires
            old(self).wf(),
            old(self)@.pending is None,
            old(self)@.ip < old(self)@.chunk.code.len(),
        ensures
            final(self).wf(),
            (final(self)@, effect@) == old(self)@.executes(Opcode::GetGlobal, old(self).has_room()),
    {
        let name = match self.read_string() {
            Ok(name) => name,
            Err(fault) => {
                return Effect::Fault(fault);
            },
        };
        let found = match self.globals.get(name.as_str()) {
            Some(value) => Some(value.clone()),
            None => None,
        };
        match found {
            Some(value) => self.push(2, value),
            None => self.undefined(name),
        }
    }

    fn define_global(&mut self) -> (effect: Effect)
        requires
            old(self).wf(),
            old(self)@.pending is None,
            old(self)@.ip < old(self)@.chunk.code.len(),
        ensures
            final(self).wf(),
            (final(self)@, effect@) == old(self)@.executes(
                Opcode::DefineGlobal,
                old(self).has_room(),
            ),
    {
        let name = match self.read_string() {
            Ok(name) => name,
            Err(fault) => {
                return Effect::Fault(fault);
            },
        };
        if self.stack.len() < 1 {
            return Effect::Fault(Fault::StackUnderflow);
        }
        if !self.globals.check_room() {
            return Effect::Fault(Fault::GlobalsFull);
        }
        let value = self.stack.pop();
        self.globals.set(name, value);
        self.ip = self.ip + 2;
        Effect::Continue
    }

    fn set_global(&mut self) -> (effect: Effect)
        requires
            old(self).wf(),
            old(self)@.pending is None,
            old(self)@.ip < old(self)@.chunk.code.len(),
        ensures
            final(self).wf(),
            (final(self)@, effect@) == old(self)@.executes(Opcode::SetGlobal, old(self).has_room()),
    {
        let name = match self.read_string() {
            Ok(name) => name,
            Err(fault) => {
                return Effect::Fault(fault);
            },
        };
        if !self.globals.has(name.as_str()) {
            return self.undefined(name);
        }
        if self.stack.len() < 1 {
            return Effect::Fault(Fault::StackUnderflow);
        }
        let value = self.stack.peek(0).clone();
        match self.globals.get_mut(name.as_str()) {
            Some(slot) => {
                *slot = value;
            },
            None => {},
        }
        self.ip = self.ip + 2;
        Effect::Continue
    }

    fn equal(&mut self) -> (effect: Effect)
        requires
            old(self).wf(),
            old(self)@.pending is None,
            old(self)@.ip < old(self)@.chunk.code.len(),
        ensures
            final(self).wf(),
            (final(self)@, effect@) == old(self)@.executes(Opcode::Equal, old(self).has_room()),
    {
        if self.stack.len() < 2 {
            return Effect::Fault(Fault::StackUnderflow);
        }
        let equal = self.stack.peek(1).equals(self.stack.peek(0));
        self.replace(2, Value::Bool(equal))
    }

    fn add(&mut self) -> (effect: Effect)
        requires
            old(self).wf(),
            old(self)@.pending is None,
            old(self)@.ip < old(self)@.chunk.code.len(),
        ensures
            final(self).wf(),
            (final(self)@, effect@) == old(self)@.executes(Opcode::Add, old(self).has_room()),
    {
        if self.stack.len() < 2 {
            return Effect::Fault(Fault::StackUnderflow);
        }
        let numbers = match (self.stack.peek(1), self.stack.peek(0)) {
            (Value::Number(a), Value::Number(b)) => Some((*a, *b)),
            _ => None,
        };
        if let Some((a, b)) = numbers {
            return self.wait_for(Arith::Add, a, b);
        }
        let strings = match (self.stack.peek(1), self.stack.peek(0)) {
            (Value::String(_), Value::String(_)) => true,
            _ => false,
        };
        if !strings {
            let ip = self.ip + 1;
            return self.runtime_error(ip, "Operands must be numbers.".to_owned());
        }
        let b = self.stack.pop();
        let a = self.stack.pop();
        assert(self@.stack =~= old(self)@.without(2));
        match (a, b) {
            (Value::String(a), Value::String(b)) => {
                self.stack.push(Value::string(a.into_string().concat(b.as_str())));
            },
            _ => {},
        }
        self.ip = self.ip + 1;
        Effect::Continue
    }

    fn not(&mut self) -> (effect: Effect)
        requires
            old(self).wf(),
            old(self)@.pending is None,
            old(self)@.ip < old(self)@.chunk.code.len(),
        ensures
            final(self).wf(),
            (final(self)@, effect@) == old(self)@.executes(Opcode::Not, old(self).has_room()),
    {
        if self.stack.len() < 1 {
            return Effect::Fault(Fault::StackUnderflow);
        }
        let negated = self.stack.peek(0).is_falsey();
        self.replace(1, Value::Bool(negated))
    }

    fn negate(&mut self) -> (effect: Effect)
        requires
            old(self).wf(),
            old(self)@.pending is None,
            old(self)@.ip < old(self)@.chunk.code.len(),
        ensures
            final(self).wf(),
            (final(self)@, effect@) == old(self)@.executes(Opcode::Negate, old(self).has_room()),
    {
        if self.stack.len() < 1 {
            return Effect::Fault(Fault::StackUnderflow);
        }
        let number = match self.stack.peek(0) {
            Value::Number(n) => Some(*n),
            _ => None,
        };
        match number {
            Some(n) => self.replace(1, Value::Number(number_negate(n))),
            None => {
                let ip = self.ip + 1;
                self.runtime_error(ip, "Operand must be a number.".to_owned())
            },
        }
    }

    fn print(&mut self) -> (effect: Effect)
        requires
            old(self).wf(),
            old(self)@.pending is None,
            old(self)@.ip < old(self)@.chunk.code.len(),
        ensures
            final(self).wf(),
            (final(self)@, effect@) == old(self)@.executes(Opcode::Print, old(self).has_room()),
    {
        if self.stack.len() < 1 {
            return Effect::Fault(Fault::StackUnderflow);
        }
        let value = self.stack.pop();
        self.ip = self.ip + 1;
        Effect::Print(value)
    }

    fn jump_if_false(&mut self) -> (effect: Effect)
        requires
            old(self).wf(),
            old(self)@.pending is None,
            old(self)@.ip < old(self)@.chunk.code.len(),
        ensures
            final(self).wf(),
            (final(self)@, effect@) == old(self)@.executes(
                Opcode::JumpIfFalse,
                old(self).has_room(),
            ),
    {
        if self.chunk.len() - self.ip < 3 {
            return Effect::Fault(Fault::CodeOverrun);
        }
        if self.stack.len() < 1 {
            return Effect::Fault(Fault::StackUnderflow);
        }
        if self.stack.peek(0).is_falsey() {
            self.jump(true)
        } else {
            self.ip = self.ip + 3;
            Effect::Continue
        }
    }

    fn jump_always(&mut self, forward: bool) -> (effect: Effect)
        requires
            old(self).wf(),
            old(self)@.pending is None,
            old(self)@.ip < old(self)@.chunk.code.len(),
        ensures
            final(self).wf(),
            (final(self)@, effect@) == old(self)@.executes(
                if forward {
                    Opcode::Jump
                } else {
                    Opcode::Loop
                },
                old(self).has_room(),
            ),
    {
        if self.chunk.len() - self.ip < 3 {
            return Effect::Fault(Fault::CodeOverrun);
        }
        self.jump(forward)
    }

    /// Executes the instruction at the instruction pointer and says what it
    /// leaves for the caller to do.
    pub fn step(&mut self) -> (effect: Effect)
        requires
            old(self).wf(),
        ensures
            final(self).wf(),
            (final(self)@, effect@) == old(self)@.step(old(self).has_room()),
    {
        if let Some((op, a, b)) = self.pending {
            return Effect::Arithmetic(op, a, b);
        }
        if self.ip >= self.chunk.len() {
            return Effect::Fault(Fault::CodeOverrun);
        }
        let instruction = self.chunk.code()[self.ip];
        let op = match Opcode::from_u8(instruction) {
            Some(op) => op,
            None => {
                self.ip = self.ip + 1;
                return Effect::UnknownInstruction(instruction);
            },
        };
        match op {
            Opcode::Return => {
                self.ip = self.ip + 1;
                Effect::Halt
            },
            Opcode::Constant => self.constant(),
            Opcode::Nil => self.push(1, Value::Nil),
            Opcode::True => self.push(1, Value::Bool(true)),
            Opcode::False => self.push(1, Value::Bool(false)),
            Opcode::Pop => self.pop(),
            Opcode::GetLocal => self.get_local(),
            Opcode::SetLocal => self.set_local(),
            Opcode::GetGlobal => self.get_global(),
            Opcode::DefineGlobal => self.define_global(),
            Opcode::SetGlobal => self.set_global(),
            Opcode::Equal => self.equal(),
            Opcode::Greater => self.binary_op(Opcode::Greater),
            Opcode::Less => self.binary_op(Opcode::Less),
            Opcode::Add => self.add(),
            Opcode::Subtract => self.binary_op(Opcode::Subtract),
            Opcode::Multiply => self.binary_op(Opcode::Multiply),
            Opcode::Divide => self.binary_op(Opcode::Divide),
            Opcode::Not => self.not(),
            Opcode::Negate => self.negate(),
            Opcode::Print => self.print(),
            Opcode::Jump => self.jump_always(true),
            Opcode::JumpIfFalse => self.jump_if_false(),
            Opcode::Loop => self.jump_always(false),
        }
    }
}

} // verus!
