//! What compiling means: the parser as a function from one state to the
//! next.
//!
//! A state holds the scanner, the two tokens in view, the locals in scope and
//! the chunk written so far. Each rule of the grammar is a function on
//! states; the executable parser is proved to compute exactly these.

use vstd::prelude::*;
use vstd::utf8::{decode_utf8, encode_utf8};
use crate::chunk::{ChunkView, Opcode, MAX_CONSTANTS};
use crate::scanner::{quoted, ScannerView, TokenType, TokenView};
use crate::value::ValueView;

verus! {

/// How tightly an operator binds, loosest first.
#[derive(Debug, Clone, Copy, PartialEq, Eq, Structural)]
pub enum Precedence {
    Lowest,
    /// `=`
    Assignment,
    /// `or`
    Or,
    /// `and`
    And,
    /// `==` `!=`
    Equality,
    /// `<` `>` `<=` `>=`
    Comparison,
    /// `+` `-`
    Term,
    /// `*` `/`
    Factor,
    /// `!` `-`
    Unary,
    /// `.` `()`
    Call,
    Primary,
}

impl Precedence {
    /// The place of the precedence on the ladder, `Lowest` at 0.
    pub open spec fn level(self) -> int {
        match self {
            Precedence::Lowest => 0,
            Precedence::Assignment => 1,
            Precedence::Or => 2,
            Precedence::And => 3,
            Precedence::Equality => 4,
            Precedence::Comparison => 5,
            Precedence::Term => 6,
            Precedence::Factor => 7,
            Precedence::Unary => 8,
            Precedence::Call => 9,
            Precedence::Primary => 10,
        }
    }

    /// The place of the precedence on the ladder.
    #[verifier::when_used_as_spec(level_u8)]
    pub fn rank(self) -> (r: u8)
        ensures
            r == self.level(),
    {
        match self {
            Precedence::Lowest => 0,
            Precedence::Assignment => 1,
            Precedence::Or => 2,
            Precedence::And => 3,
            Precedence::Equality => 4,
            Precedence::Comparison => 5,
            Precedence::Term => 6,
            Precedence::Factor => 7,
            Precedence::Unary => 8,
            Precedence::Call => 9,
            Precedence::Primary => 10,
        }
    }

    /// [`Precedence::level`] as a byte.
    pub open spec fn level_u8(self) -> u8 {
        self.level() as u8
    }

    /// The next tighter precedence. `Primary` is the tightest and has none.
    pub fn next(self) -> (r: Precedence)
        requires
            self != Precedence::Primary,
        ensures
            r == self.successor(),
            r.level() == self.level() + 1,
    {
        match self {
            Precedence::Lowest => Precedence::Assignment,
            Precedence::Assignment => Precedence::Or,
            Precedence::Or => Precedence::And,
            Precedence::And => Precedence::Equality,
            Precedence::Equality => Precedence::Comparison,
            Precedence::Comparison => Precedence::Term,
            Precedence::Term => Precedence::Factor,
            Precedence::Factor => Precedence::Unary,
            Precedence::Unary => Precedence::Call,
            _ => Precedence::Primary,
        }
    }

    /// The next tighter precedence; `Primary` is the tightest and is its own
    /// successor.
    pub open spec fn successor(self) -> Precedence {
        match self {
            Precedence::Lowest => Precedence::Assignment,
            Precedence::Assignment => Precedence::Or,
            Precedence::Or => Precedence::And,
            Precedence::And => Precedence::Equality,
            Precedence::Equality => Precedence::Comparison,
            Precedence::Comparison => Precedence::Term,
            Precedence::Term => Precedence::Factor,
            Precedence::Factor => Precedence::Unary,
            Precedence::Unary => Precedence::Call,
            Precedence::Call => Precedence::Primary,
            Precedence::Primary => Precedence::Primary,
        }
    }
}

/// The parsing routines that a token can select.
#[derive(Debug, Clone, Copy, PartialEq, Eq, Structural)]
pub enum ParseFn {
    Grouping,
    Unary,
    Binary,
    Variable,
    String,
    Number,
    Literal,
    And,
    Or,
}

/// What a token kind means to the expression parser.
#[derive(Debug, Clone, Copy, PartialEq, Eq, Structural)]
pub struct ParseRule {
    /// The routine for an expression that begins with the token.
    pub prefix: Option<ParseFn>,
    /// The routine for an expression that goes on with the token.
    pub infix: Option<ParseFn>,
    /// How tightly the token binds as an infix operator.
    pub precedence: Precedence,
}

/// The routine for an expression that begins with a token of `kind`.
pub open spec fn prefix_of(kind: TokenType) -> Option<ParseFn> {
    match kind {
        TokenType::LeftParen => Some(ParseFn::Grouping),
        TokenType::Minus | TokenType::Bang => Some(ParseFn::Unary),
        TokenType::Identifier => Some(ParseFn::Variable),
        TokenType::String => Some(ParseFn::String),
        TokenType::Number => Some(ParseFn::Number),
        TokenType::False | TokenType::Nil | TokenType::True => Some(ParseFn::Literal),
        _ => None,
    }
}

/// How tightly a token of `kind` binds as an infix operator; `Lowest` if it is
/// none.
pub open spec fn precedence_of(kind: TokenType) -> Precedence {
    match kind {
        TokenType::Minus | TokenType::Plus => Precedence::Term,
        TokenType::Slash | TokenType::Star => Precedence::Factor,
        TokenType::BangEqual | TokenType::EqualEqual => Precedence::Equality,
        TokenType::Greater | TokenType::GreaterEqual | TokenType::Less
        | TokenType::LessEqual => Precedence::Comparison,
        TokenType::And => Precedence::And,
        TokenType::Or => Precedence::Or,
        _ => Precedence::Lowest,
    }
}

/// The routine for an expression that goes on with a token of `kind`.
pub open spec fn infix_of(kind: TokenType) -> Option<ParseFn> {
    match precedence_of(kind) {
        Precedence::Lowest => None,
        Precedence::And => Some(ParseFn::And),
        Precedence::Or => Some(ParseFn::Or),
        _ => Some(ParseFn::Binary),
    }
}

/// The rule of a token kind.
pub open spec fn rule(kind: TokenType) -> ParseRule {
    ParseRule { prefix: prefix_of(kind), infix: infix_of(kind), precedence: precedence_of(kind) }
}

/// The instructions that a binary operator compiles to, after its operands.
pub open spec fn binary_code(operator: TokenType) -> Seq<u8> {
    match operator {
        TokenType::BangEqual => seq![Opcode::Equal.byte(), Opcode::Not.byte()],
        TokenType::EqualEqual => seq![Opcode::Equal.byte()],
        TokenType::Greater => seq![Opcode::Greater.byte()],
        TokenType::GreaterEqual => seq![Opcode::Less.byte(), Opcode::Not.byte()],
        TokenType::Less => seq![Opcode::Less.byte()],
        TokenType::LessEqual => seq![Opcode::Greater.byte(), Opcode::Not.byte()],
        TokenType::Plus => seq![Opcode::Add.byte()],
        TokenType::Minus => seq![Opcode::Subtract.byte()],
        TokenType::Star => seq![Opcode::Multiply.byte()],
        TokenType::Slash => seq![Opcode::Divide.byte()],
        _ => seq![],
    }
}

/// A local variable: its name and the depth of the scope that declared it,
/// `None` from its declaration until its initializer is complete.
pub struct LocalView {
    pub name: Seq<char>,
    pub depth: Option<int>,
}

/// Where in the source an error was found.
pub enum PlaceView {
    /// At the end of the source.
    End,
    /// At the token with this text.
    Lexeme(Seq<char>),
    /// At a piece of source that is no token.
    Nowhere,
}

/// A compile error as it is reported.
pub struct DiagnosticView {
    pub line: u32,
    pub place: PlaceView,
    pub message: Seq<char>,
}

/// How many locals can be in scope at once.
pub const MAX_LOCALS: usize = 256;

/// The largest distance that a jump can span.
pub const MAX_JUMP: usize = 65535;

/// The text between the quotes of a string literal.
pub open spec fn unquoted(text: Seq<char>) -> Seq<char> {
    decode_utf8(encode_utf8(text).subrange(1, encode_utf8(text).len() - 1))
}

/// The index of the newest local called `name`, if there is one.
pub open spec fn newest_named(locals: Seq<LocalView>, name: Seq<char>) -> Option<int>
    decreases locals.len(),
{
    if locals.len() == 0 {
        None
    } else if locals.last().name == name {
        Some(locals.len() - 1)
    } else {
        newest_named(locals.drop_last(), name)
    }
}

/// Whether the scope of depth `depth`, the innermost, already has a local
/// called `name`. Locals whose initializer is not complete count as its own.
pub open spec fn declared_in_scope(locals: Seq<LocalView>, name: Seq<char>, depth: int) -> bool
    decreases locals.len(),
{
    if locals.len() == 0 {
        false
    } else {
        match locals.last().depth {
            Some(d) if d < depth => false,
            _ => locals.last().name == name || declared_in_scope(locals.drop_last(), name, depth),
        }
    }
}

/// Whether a local of depth `local` leaves with the scope above `depth`.
pub open spec fn deeper(local: Option<int>, depth: int) -> bool {
    match local {
        Some(d) => d > depth,
        None => true,
    }
}

/// The literal value with index `i`, or 0 if there is none.
pub open spec fn literal(literals: Seq<u64>, i: int) -> u64 {
    if 0 <= i < literals.len() {
        literals[i]
    } else {
        0
    }
}

/// The state of the parser.
pub struct ParserView {
    pub scanner: ScannerView,
    /// The values of the number literals of the source, in its order.
    pub literals: Seq<u64>,
    /// How many number tokens have been scanned.
    pub numbers_seen: int,
    /// The token to be parsed next.
    pub current: TokenView,
    /// The token parsed last.
    pub previous: TokenView,
    /// The value of `current`, where it is a number.
    pub current_number: u64,
    /// The value of `previous`, where it is a number.
    pub previous_number: u64,
    pub had_error: bool,
    /// Set by an error; while it is set, further errors go unreported.
    pub panic_mode: bool,
    /// The errors reported so far.
    pub diagnostics: Seq<DiagnosticView>,
    /// The locals in scope, oldest first; a local's index is its stack slot.
    pub locals: Seq<LocalView>,
    pub scope_depth: int,
    /// The code written so far.
    pub chunk: ChunkView,
}

impl ParserView {
    /// How much is left to parse: the bytes not scanned, and the token in
    /// view unless it is `Eof`.
    pub open spec fn remaining(self) -> int {
        self.scanner.source.len() - self.scanner.current + if self.current.kind
            == TokenType::Eof {
            0int
        } else {
            1int
        }
    }

    /// Whether a rule may run on `self` after running on `from`: parsing
    /// never goes back. Every state that the parser reaches meets this
    /// towards the state it came from; the test makes the rules well-founded.
    pub open spec fn follows(self, from: ParserView) -> bool {
        0 <= self.remaining() <= from.remaining()
    }

    /// As [`ParserView::follows`], with at least one token consumed.
    pub open spec fn advanced(self, from: ParserView) -> bool {
        0 <= self.remaining() < from.remaining()
    }

    /// The parser's invariant.
    #[verifier::opaque]
    pub open spec fn wf(self) -> bool {
        &&& self.scanner.wf()
        &&& self.chunk.wf()
        &&& self.locals.len() <= MAX_LOCALS
        &&& 0 <= self.numbers_seen <= self.scanner.current
        &&& (self.current.kind == TokenType::Eof ==> self.scanner.current
            == self.scanner.source.len())
        &&& 0 <= self.scope_depth
        &&& self.scope_depth + self.remaining() <= self.scanner.source.len() + 1
        &&& (self.current.kind == TokenType::String ==> quoted(self.current.lexeme))
        &&& (self.previous.kind == TokenType::String ==> quoted(self.previous.lexeme))
        &&& (self.panic_mode ==> self.had_error)
    }

    /// Whether `self` can come from `from` by parsing: no token comes back,
    /// the source and the literals are the same, and no code is lost.
    pub open spec fn extends(self, from: ParserView) -> bool {
        &&& self.follows(from)
        &&& self.scanner.source == from.scanner.source
        &&& self.literals == from.literals
        &&& self.chunk.code.len() >= from.chunk.code.len()
    }

    /// Whether `self` can come from `from` by compiling: both are well
    /// formed, no token comes back, and what `from` held of code, lines,
    /// constants and reported errors is still there, in its place.
    #[verifier::opaque]
    pub open spec fn grows_from(self, from: ParserView) -> bool {
        &&& from.wf()
        &&& self.wf()
        &&& self.extends(from)
        &&& self.chunk.code.take(from.here()) == from.chunk.code
        &&& self.chunk.lines.take(from.here()) == from.chunk.lines
        &&& from.chunk.constants.len() <= self.chunk.constants.len()
        &&& self.chunk.constants.take(from.chunk.constants.len() as int) == from.chunk.constants
        &&& from.diagnostics.len() <= self.diagnostics.len()
        &&& self.diagnostics.take(from.diagnostics.len() as int) == from.diagnostics
        &&& (from.had_error ==> self.had_error)
    }

    /// Whether `self` has the chunk and the scopes of `from`: what reading
    /// tokens and reporting errors leave alone.
    pub open spec fn same_code(self, from: ParserView) -> bool {
        &&& self.chunk == from.chunk
        &&& self.locals == from.locals
        &&& self.scope_depth == from.scope_depth
    }

    /// Whether `self` stands where `from` stands in the source, with the
    /// same tokens in view: what writing code leaves alone.
    pub open spec fn same_tokens(self, from: ParserView) -> bool {
        &&& self.scanner == from.scanner
        &&& self.literals == from.literals
        &&& self.numbers_seen == from.numbers_seen
        &&& self.current == from.current
        &&& self.previous == from.previous
        &&& self.current_number == from.current_number
        &&& self.previous_number == from.previous_number
    }

    /// Whether a scope can be opened: a token has been consumed for it.
    pub open spec fn has_slack(self) -> bool {
        self.scope_depth + self.remaining() <= self.scanner.source.len()
    }

    /// Whether `self` has the locals and the depth of scopes of `from`.
    pub open spec fn same_locals(self, from: ParserView) -> bool {
        self.locals == from.locals && self.scope_depth == from.scope_depth
    }

    /// Whether `self` is as deep in scopes as `from`, with as many locals.
    pub open spec fn same_scopes(self, from: ParserView) -> bool {
        self.scope_depth == from.scope_depth && self.locals.len() == from.locals.len()
    }

    /// The parser at the beginning of `source`, writing to `chunk`.
    pub open spec fn begin(source: Seq<u8>, literals: Seq<u64>, chunk: ChunkView) -> ParserView {
        let empty = TokenView { kind: TokenType::Error, lexeme: ""@, line: 0 };
        ParserView {
            scanner: ScannerView::begin(source),
            literals,
            numbers_seen: 0,
            current: empty,
            previous: empty,
            current_number: 0,
            previous_number: 0,
            had_error: false,
            panic_mode: false,
            diagnostics: Seq::empty(),
            locals: Seq::empty(),
            scope_depth: 0,
            chunk,
        }
    }

    /// Reports `message` at `token`, unless an earlier error is still being
    /// recovered from.
    #[verifier::opaque]
    pub open spec fn error_at(self, token: TokenView, message: Seq<char>) -> ParserView {
        if self.panic_mode {
            self
        } else {
            ParserView {
                panic_mode: true,
                had_error: true,
                diagnostics: self.diagnostics.push(
                    DiagnosticView {
                        line: token.line,
                        place: match token.kind {
                            TokenType::Eof => PlaceView::End,
                            TokenType::Error => PlaceView::Nowhere,
                            _ => PlaceView::Lexeme(token.lexeme),
                        },
                        message,
                    },
                ),
                ..self
            }
        }
    }

    /// Reports `message` at the token parsed last.
    pub open spec fn error(self, message: Seq<char>) -> ParserView {
        self.error_at(self.previous, message)
    }

    /// Reports `message` at the token to be parsed next.
    pub open spec fn error_at_current(self, message: Seq<char>) -> ParserView {
        self.error_at(self.current, message)
    }

    /// Scans up to the next token that is no error and makes it `current`.
    /// Each error token on the way is reported with its own message. A number
    /// token takes the next literal value.
    #[verifier::opaque]
    pub open spec fn scan(self) -> ParserView
        decreases self.scanner.source.len() - self.scanner.current,
    {
        let (scanner, token) = self.scanner.next();
        let read = ParserView { scanner, current: token, ..self };
        if token.kind == TokenType::Error {
            let reported = read.error_at_current(token.lexeme);
            if self.scanner.reaches(reported.scanner) {
                reported.scan()
            } else {
                reported
            }
        } else if token.kind == TokenType::Number {
            ParserView {
                current_number: literal(self.literals, self.numbers_seen),
                numbers_seen: self.numbers_seen + 1,
                ..read
            }
        } else {
            read
        }
    }

    /// Moves on by one token.
    #[verifier::opaque]
    pub open spec fn advance(self) -> ParserView {
        (ParserView {
            previous: self.current,
            previous_number: self.current_number,
            ..self
        }).scan()
    }

    /// Whether the token to be parsed next is of `kind`.
    pub open spec fn check(self, kind: TokenType) -> bool {
        self.current.kind == kind
    }

    /// Moves on if the next token is of `kind`.
    #[verifier::opaque]
    pub open spec fn accept(self, kind: TokenType) -> ParserView {
        if self.check(kind) {
            self.advance()
        } else {
            self
        }
    }

    /// Moves on if the next token is of `kind`, and reports `message` if not.
    #[verifier::opaque]
    pub open spec fn consume(self, kind: TokenType, message: Seq<char>) -> ParserView {
        if self.check(kind) {
            self.advance()
        } else {
            self.error_at_current(message)
        }
    }

    /// Appends `byte` to the chunk, for the line of the token parsed last.
    pub open spec fn emit_byte(self, byte: u8) -> ParserView {
        ParserView { chunk: self.chunk.write(byte, self.previous.line), ..self }
    }

    /// Appends `bytes`, all for the line of the token parsed last.
    #[verifier::opaque]
    pub open spec fn emit_bytes(self, bytes: Seq<u8>) -> ParserView
        decreases bytes.len(),
    {
        if bytes.len() == 0 {
            self
        } else {
            self.emit_bytes(bytes.drop_last()).emit_byte(bytes.last())
        }
    }

    /// Where the chunk ends.
    pub open spec fn here(self) -> int {
        self.chunk.code.len() as int
    }

    /// Appends a `Loop` back to `loop_start`. The operand is the distance
    /// from behind the instruction; one that does not fit 16 bits is an
    /// error, and its low 16 bits are written.
    #[verifier::opaque]
    pub open spec fn emit_loop(self, loop_start: int) -> ParserView {
        let looped = self.emit_byte(Opcode::Loop.byte());
        let distance = looped.here() - loop_start + 2;
        let checked = if distance > MAX_JUMP {
            looped.error("Loop body too large."@)
        } else {
            looped
        };
        checked.emit_bytes(seq![(distance % 256) as u8, ((distance / 256) % 256) as u8])
    }

    /// Appends the jump `instruction` with a placeholder for its operand.
    /// The operand's offset is [`ParserView::jump_operand`] of the state
    /// before.
    pub open spec fn emit_jump(self, instruction: u8) -> ParserView {
        self.emit_byte(instruction).emit_byte(0xff).emit_byte(0xff)
    }

    /// The offset that the operand of a jump emitted now will have.
    pub open spec fn jump_operand(self) -> int {
        self.here() + 1
    }

    /// Makes the jump whose operand is at `offset` lead to the end of the
    /// chunk: the operand becomes the distance from behind it. A distance
    /// that does not fit 16 bits is an error and leaves the placeholder.
    #[verifier::opaque]
    pub open spec fn patch_jump(self, offset: int) -> ParserView {
        let jump = self.here() - offset - 2;
        if jump > MAX_JUMP {
            self.error("Too much code to jump over."@)
        } else {
            ParserView { chunk: self.chunk.patch(offset, jump as u16), ..self }
        }
    }

    /// The id under which `value` is in the pool after
    /// [`ParserView::make_constant`]: that of the first equal constant, else
    /// a new one, or 0 when the pool is full.
    pub open spec fn constant_id(self, value: ValueView) -> u8 {
        match self.chunk.find(value) {
            Some(id) => id,
            None => if self.chunk.constants.len() >= MAX_CONSTANTS {
                0
            } else {
                self.chunk.constants.len() as u8
            },
        }
    }

    /// Puts `value` into the pool unless an equal constant is there. A full
    /// pool is an error.
    #[verifier::opaque]
    pub open spec fn make_constant(self, value: ValueView) -> ParserView {
        match self.chunk.find(value) {
            Some(_) => self,
            None => if self.chunk.constants.len() >= MAX_CONSTANTS {
                self.error("Too many constants in one chunk."@)
            } else {
                ParserView { chunk: self.chunk.add(value), ..self }
            },
        }
    }

    /// Appends the instruction that loads `value`.
    #[verifier::opaque]
    pub open spec fn emit_constant(self, value: ValueView) -> ParserView {
        self.make_constant(value).emit_bytes(
            seq![Opcode::Constant.byte(), self.constant_id(value)],
        )
    }

    /// Closes the chunk with `Return`.
    pub open spec fn end_compiler(self) -> ParserView {
        self.emit_byte(Opcode::Return.byte())
    }

    /// Opens a scope.
    pub open spec fn begin_scope(self) -> ParserView {
        ParserView { scope_depth: self.scope_depth + 1, ..self }
    }

    /// Drops the locals deeper than the current scope, newest first, with a
    /// `Pop` for each.
    #[verifier::opaque]
    pub open spec fn pop_locals(self) -> ParserView
        decreases self.locals.len(),
    {
        if self.locals.len() > 0 && deeper(self.locals.last().depth, self.scope_depth) {
            (ParserView { locals: self.locals.drop_last(), ..self.emit_byte(Opcode::Pop.byte()) })
                .pop_locals()
        } else {
            self
        }
    }

    /// The state in which the innermost scope is closed and its locals are
    /// still there.
    pub open spec fn end_scope_begin(self) -> ParserView {
        ParserView { scope_depth: self.scope_depth - 1, ..self }
    }

    /// Closes the innermost scope and drops its locals.
    #[verifier::opaque]
    pub open spec fn end_scope(self) -> ParserView {
        self.end_scope_begin().pop_locals()
    }

    /// The number literal parsed last.
    #[verifier::opaque]
    pub open spec fn number(self) -> ParserView {
        self.emit_constant(ValueView::Number(self.previous_number))
    }

    /// The string literal parsed last: its text without the quotes.
    #[verifier::opaque]
    pub open spec fn string(self) -> ParserView {
        self.emit_constant(ValueView::String(unquoted(self.previous.lexeme)))
    }

    /// The pool id of the name of `token`.
    pub open spec fn identifier_id(self, name: TokenView) -> u8 {
        self.constant_id(ValueView::String(name.lexeme))
    }

    /// Puts the name of `token` into the pool.
    #[verifier::opaque]
    pub open spec fn identifier_constant(self, name: TokenView) -> ParserView {
        self.make_constant(ValueView::String(name.lexeme))
    }

    /// The stack slot of the newest local called like `name`, if there is
    /// one.
    pub open spec fn local_slot(self, name: TokenView) -> Option<u8> {
        match newest_named(self.locals, name.lexeme) {
            Some(i) => Some(i as u8),
            None => None,
        }
    }

    /// Looks `name` up among the locals. To read a local inside its own
    /// initializer is an error.
    #[verifier::opaque]
    pub open spec fn resolve_local(self, name: TokenView) -> ParserView {
        match newest_named(self.locals, name.lexeme) {
            Some(i) if self.locals[i].depth is None => self.error(
                "Can't read local variable in its own initializer."@,
            ),
            _ => self,
        }
    }

    /// Adds a local called like `name`, not yet initialized. More than
    /// [`MAX_LOCALS`] locals are an error.
    #[verifier::opaque]
    pub open spec fn add_local(self, name: TokenView) -> ParserView {
        if self.locals.len() >= MAX_LOCALS {
            self.error("Too many local variables in function."@)
        } else {
            ParserView {
                locals: self.locals.push(LocalView { name: name.lexeme, depth: None }),
                ..self
            }
        }
    }

    /// Declares the variable named by the token parsed last. In the global
    /// scope nothing is recorded; in a block the name becomes a local, and a
    /// second declaration of the name in one scope is an error.
    #[verifier::opaque]
    pub open spec fn declare_variable(self) -> ParserView {
        if self.scope_depth == 0 {
            self
        } else {
            let checked = if declared_in_scope(
                self.locals,
                self.previous.lexeme,
                self.scope_depth,
            ) {
                self.error("Already a variable with this name in this scope."@)
            } else {
                self
            };
            checked.add_local(self.previous)
        }
    }

    /// Parses a variable's name and declares it.
    #[verifier::opaque]
    pub open spec fn parse_variable(self, message: Seq<char>) -> ParserView {
        let declared = self.consume(TokenType::Identifier, message).declare_variable();
        if declared.scope_depth > 0 {
            declared
        } else {
            declared.identifier_constant(declared.previous)
        }
    }

    /// The pool id of the name parsed by [`ParserView::parse_variable`], for
    /// a global; 0 for a local.
    #[verifier::opaque]
    pub open spec fn variable_id(self, message: Seq<char>) -> u8 {
        let declared = self.consume(TokenType::Identifier, message).declare_variable();
        if declared.scope_depth > 0 {
            0
        } else {
            declared.identifier_id(declared.previous)
        }
    }

    /// Gives the newest local the depth of the current scope: its
    /// initializer is complete.
    #[verifier::opaque]
    pub open spec fn mark_initialized(self) -> ParserView {
        if self.locals.len() == 0 {
            self
        } else {
            ParserView {
                locals: self.locals.update(
                    self.locals.len() - 1,
                    LocalView { depth: Some(self.scope_depth), ..self.locals.last() },
                ),
                ..self
            }
        }
    }

    /// Makes the variable declared last usable: a local is marked
    /// initialized, a global is defined from the top of the stack.
    #[verifier::opaque]
    pub open spec fn define_variable(self, global: u8) -> ParserView {
        if self.scope_depth > 0 {
            self.mark_initialized()
        } else {
            self.emit_bytes(seq![Opcode::DefineGlobal.byte(), global])
        }
    }

    /// A literal `false`, `nil` or `true`.
    #[verifier::opaque]
    pub open spec fn literal(self) -> ParserView {
        match self.previous.kind {
            TokenType::False => self.emit_byte(Opcode::False.byte()),
            TokenType::Nil => self.emit_byte(Opcode::Nil.byte()),
            TokenType::True => self.emit_byte(Opcode::True.byte()),
            _ => self,
        }
    }

    /// `panic_mode` is cleared and tokens are skipped up to a place where a
    /// statement may begin: behind a `;`, or before a keyword that begins a
    /// statement.
    #[verifier::opaque]
    pub open spec fn synchronize(self) -> ParserView {
        (ParserView { panic_mode: false, ..self }).skip_to_statement()
    }

    /// Skips tokens up to a statement boundary.
    #[verifier::opaque]
    pub open spec fn skip_to_statement(self) -> ParserView
        decreases self.remaining(),
    {
        if self.check(TokenType::Eof) || self.previous.kind == TokenType::Semicolon {
            self
        } else {
            match self.current.kind {
                TokenType::Class | TokenType::Fun | TokenType::Var | TokenType::For
                | TokenType::If | TokenType::While | TokenType::Print | TokenType::Return => self,
                _ => if self.advance().advanced(self) {
                    self.advance().skip_to_statement()
                } else {
                    self.advance()
                },
            }
        }
    }

    /// An expression.
    pub open spec fn expression(self) -> ParserView
        decreases self.remaining(), 5int,
    {
        self.parse_precedence(Precedence::Assignment)
    }

    /// An expression of operators that bind at least as tightly as
    /// `precedence`: a prefix expression, then infix operators with their
    /// right operands as long as they bind tightly enough. What begins no
    /// expression is an error. An `=` left over where an assignment could
    /// have stood is an error: its left side was no variable.
    pub open spec fn parse_precedence(self, precedence: Precedence) -> ParserView
        decreases self.remaining(), 4int,
    {
        let first = self.advance();
        match prefix_of(first.previous.kind) {
            None => first.error("Expect expression."@),
            Some(prefix) => {
                let can_assign = precedence.level() <= Precedence::Assignment.level();
                let head = if first.advanced(self) {
                    first.run(prefix, can_assign)
                } else {
                    first
                };
                let whole = if head.follows(self) {
                    head.infix_loop(precedence, can_assign)
                } else {
                    head
                };
                if can_assign && whole.check(TokenType::Equal) {
                    whole.advance().error("Invalid assignment target"@)
                } else {
                    whole
                }
            },
        }
    }

    /// The infix operators that follow, with their right operands, as long
    /// as they bind at least as tightly as `precedence`.
    pub open spec fn infix_loop(self, precedence: Precedence, can_assign: bool) -> ParserView
        decreases self.remaining(), 3int,
    {
        match infix_of(self.current.kind) {
            Some(infix) if precedence.level() <= precedence_of(self.current.kind).level() => {
                let operator = self.advance();
                if operator.advanced(self) {
                    let operand = operator.run(infix, can_assign);
                    if operand.advanced(self) {
                        operand.infix_loop(precedence, can_assign)
                    } else {
                        operand
                    }
                } else {
                    operator
                }
            },
            _ => self,
        }
    }

    /// The routine `routine`, after the token that selected it.
    pub open spec fn run(self, routine: ParseFn, can_assign: bool) -> ParserView
        decreases self.remaining(), 10int,
    {
        match routine {
            ParseFn::Grouping => self.grouping(),
            ParseFn::Unary => self.unary(),
            ParseFn::Binary => self.binary(),
            ParseFn::Variable => self.named_variable(self.previous, can_assign),
            ParseFn::String => self.string(),
            ParseFn::Number => self.number(),
            ParseFn::Literal => self.literal(),
            ParseFn::And => self.and_(),
            ParseFn::Or => self.or_(),
        }
    }

    /// An expression in parentheses, after the `(`.
    pub open spec fn grouping(self) -> ParserView
        decreases self.remaining(), 9int,
    {
        self.expression().consume(TokenType::RightParen, "Expect ')' after expression."@)
    }

    /// The operand of `!` or `-`, then the operator's instruction.
    pub open spec fn unary(self) -> ParserView
        decreases self.remaining(), 9int,
    {
        let operand = self.parse_precedence(Precedence::Unary);
        match self.previous.kind {
            TokenType::Bang => operand.emit_byte(Opcode::Not.byte()),
            TokenType::Minus => operand.emit_byte(Opcode::Negate.byte()),
            _ => operand,
        }
    }

    /// The right operand of a binary operator, which binds tighter than the
    /// operator, then the operator's instructions.
    pub open spec fn binary(self) -> ParserView
        decreases self.remaining(), 9int,
    {
        let operator = self.previous.kind;
        self.parse_precedence(precedence_of(operator).successor()).emit_bytes(
            binary_code(operator),
        )
    }

    /// The right operand of `and`. A false left operand jumps over it and
    /// stays as the result.
    pub open spec fn and_(self) -> ParserView
        decreases self.remaining(), 9int,
    {
        let end_jump = self.jump_operand();
        self.emit_jump(Opcode::JumpIfFalse.byte()).emit_byte(Opcode::Pop.byte()).parse_precedence(
            Precedence::And,
        ).patch_jump(end_jump)
    }

    /// The right operand of `or`. A true left operand jumps over it and
    /// stays as the result.
    pub open spec fn or_(self) -> ParserView
        decreases self.remaining(), 9int,
    {
        let else_jump = self.jump_operand();
        let first = self.emit_jump(Opcode::JumpIfFalse.byte());
        let end_jump = first.jump_operand();
        let left = first.emit_jump(Opcode::Jump.byte()).patch_jump(else_jump).emit_byte(
            Opcode::Pop.byte(),
        );
        if left.follows(self) {
            left.parse_precedence(Precedence::Or)
        } else {
            left
        }.patch_jump(end_jump)
    }

    /// A use of the variable `name`: a read, or where an assignment may
    /// stand and `=` follows, the right side and a write. A name that no
    /// local has is a global's.
    pub open spec fn named_variable(self, name: TokenView, can_assign: bool) -> ParserView
        decreases self.remaining(), 9int,
    {
        let local = self.local_slot(name);
        let resolved = match local {
            Some(_) => self.resolve_local(name),
            None => self.resolve_local(name).identifier_constant(name),
        };
        let (arg, get_op, set_op) = match local {
            Some(slot) => (slot, Opcode::GetLocal, Opcode::SetLocal),
            None => (
                self.resolve_local(name).identifier_id(name),
                Opcode::GetGlobal,
                Opcode::SetGlobal,
            ),
        };
        if can_assign && resolved.check(TokenType::Equal) {
            if resolved.advance().follows(self) {
                resolved.advance().expression()
            } else {
                resolved.advance()
            }.emit_bytes(seq![set_op.byte(), arg])
        } else {
            resolved.emit_bytes(seq![get_op.byte(), arg])
        }
    }

    /// The declarations of a block up to its `}`, which is consumed.
    pub open spec fn block(self) -> ParserView
        decreases self.remaining(), 10int,
    {
        self.block_items().consume(TokenType::RightBrace, "Expect '}' after block."@)
    }

    /// Declarations up to a `}` or the end of the source.
    pub open spec fn block_items(self) -> ParserView
        decreases self.remaining(), 9int,
    {
        if !self.check(TokenType::RightBrace) && !self.check(TokenType::Eof) {
            let item = self.declaration();
            if item.advanced(self) {
                item.block_items()
            } else {
                item
            }
        } else {
            self
        }
    }

    /// A variable declaration, after `var`: the name, an initializer or
    /// `nil`, and `;`.
    pub open spec fn var_declaration(self) -> ParserView
        decreases self.remaining(), 7int,
    {
        let global = self.variable_id("Expect variable name."@);
        let named = self.parse_variable("Expect variable name."@);
        let valued = if named.check(TokenType::Equal) {
            if named.advance().follows(self) {
                named.advance().expression()
            } else {
                named.advance()
            }
        } else {
            named.emit_byte(Opcode::Nil.byte())
        };
        valued.consume(
            TokenType::Semicolon,
            "Expect ';' after variable declaration."@,
        ).define_variable(global)
    }

    /// A print statement, after `print`.
    pub open spec fn print_statement(self) -> ParserView
        decreases self.remaining(), 9int,
    {
        self.expression().consume(TokenType::Semicolon, "Expect ';' after value."@).emit_byte(
            Opcode::Print.byte(),
        )
    }

    /// An expression statement: the value is dropped.
    pub open spec fn expression_statement(self) -> ParserView
        decreases self.remaining(), 6int,
    {
        self.expression().consume(TokenType::Semicolon, "Expect ';' after value."@).emit_byte(
            Opcode::Pop.byte(),
        )
    }

    /// A while statement, after `while`.
    pub open spec fn while_statement(self) -> ParserView
        decreases self.remaining(), 9int,
    {
        let loop_start = self.here();
        let opened = self.consume(TokenType::LeftParen, "Expect '(' after `while`."@);
        let condition = if opened.follows(self) {
            opened.expression()
        } else {
            opened
        }.consume(TokenType::RightParen, "Expect ')' after condition."@);
        let exit_jump = condition.jump_operand();
        let test = condition.emit_jump(Opcode::JumpIfFalse.byte()).emit_byte(Opcode::Pop.byte());
        if test.follows(self) {
            test.statement()
        } else {
            test
        }.emit_loop(loop_start).patch_jump(exit_jump).emit_byte(Opcode::Pop.byte())
    }

    /// An if statement, after `if`.
    pub open spec fn if_statement(self) -> ParserView
        decreases self.remaining(), 9int,
    {
        let opened = self.consume(TokenType::LeftParen, "Expect '(' after 'if'."@);
        let condition = if opened.follows(self) {
            opened.expression()
        } else {
            opened
        }.consume(TokenType::RightParen, "Expect ')' after condition."@);
        let then_jump = condition.jump_operand();
        let test = condition.emit_jump(Opcode::JumpIfFalse.byte()).emit_byte(Opcode::Pop.byte());
        let then_branch = if test.follows(self) {
            test.statement()
        } else {
            test
        };
        let else_jump = then_branch.jump_operand();
        let joined = then_branch.emit_jump(Opcode::Jump.byte()).patch_jump(then_jump).emit_byte(
            Opcode::Pop.byte(),
        );
        let else_branch = if joined.check(TokenType::Else) && joined.advance().follows(self) {
            joined.advance().statement()
        } else {
            joined.accept(TokenType::Else)
        };
        else_branch.patch_jump(else_jump)
    }

    /// The first clause of a for statement with its `;`: nothing, a variable
    /// declaration, or an expression statement.
    pub open spec fn for_initializer(self) -> ParserView
        decreases self.remaining(), 8int,
    {
        if self.check(TokenType::Semicolon) {
            self.advance()
        } else if self.check(TokenType::Var) {
            if self.advance().follows(self) {
                self.advance().var_declaration()
            } else {
                self.advance()
            }
        } else {
            self.expression_statement()
        }
    }

    /// The second clause of a for statement with its `;`: nothing, or a
    /// condition that leaves the loop when it is false.
    pub open spec fn for_condition(self) -> ParserView
        decreases self.remaining(), 8int,
    {
        if self.check(TokenType::Semicolon) {
            self.advance()
        } else {
            self.expression().consume(
                TokenType::Semicolon,
                "Expect ';' after loop condition."@,
            ).emit_jump(Opcode::JumpIfFalse.byte()).emit_byte(Opcode::Pop.byte())
        }
    }

    /// The third clause of a for statement with the `)`: nothing, or an
    /// increment. The increment is jumped over on the way to the body and
    /// loops back to `condition_start`.
    pub open spec fn for_increment(self, condition_start: int) -> ParserView
        decreases self.remaining(), 8int,
    {
        if self.check(TokenType::RightParen) {
            self.advance()
        } else {
            let body_jump = self.jump_operand();
            self.emit_jump(Opcode::Jump.byte()).expression().emit_byte(
                Opcode::Pop.byte(),
            ).consume(TokenType::RightParen, "Expect ')' after for clauses."@).emit_loop(
                condition_start,
            ).patch_jump(body_jump)
        }
    }

    /// The body of a for statement. It loops back to `loop_start`, and
    /// `exit_jump`, if the loop has a condition, leads behind it.
    pub open spec fn for_body(self, loop_start: int, exit_jump: Option<int>) -> ParserView
        decreases self.remaining(), 8int,
    {
        let body = self.statement().emit_loop(loop_start);
        match exit_jump {
            Some(exit_jump) => body.patch_jump(exit_jump).emit_byte(Opcode::Pop.byte()),
            None => body,
        }
    }

    /// A for statement, after `for`. Its clauses and its body lie in a scope
    /// of their own. The increment, if there is one, stands in the code
    /// before the body and runs after it.
    pub open spec fn for_statement(self) -> ParserView
        decreases self.remaining(), 9int,
    {
        let opened = self.begin_scope().consume(
            TokenType::LeftParen,
            "Expect '(' after 'for'."@,
        );
        let initialized = if opened.follows(self) {
            opened.for_initializer()
        } else {
            opened
        };
        let conditioned = if initialized.follows(self) {
            initialized.for_condition()
        } else {
            initialized
        };
        let exit_jump = if initialized.check(TokenType::Semicolon) {
            None
        } else {
            Some(conditioned.here() - 3)
        };
        let incremented = if conditioned.follows(self) {
            conditioned.for_increment(initialized.here())
        } else {
            conditioned
        };
        let loop_start = if conditioned.check(TokenType::RightParen) {
            initialized.here()
        } else {
            conditioned.here() + 3
        };
        if incremented.follows(self) {
            incremented.for_body(loop_start, exit_jump)
        } else {
            incremented
        }.end_scope()
    }

    /// A declaration: a variable declaration or a statement. After an error
    /// the parser synchronizes.
    #[verifier::opaque]
    pub open spec fn declaration(self) -> ParserView
        decreases self.remaining(), 8int,
    {
        let parsed = if self.check(TokenType::Var) {
            if self.advance().follows(self) {
                self.advance().var_declaration()
            } else {
                self.advance()
            }
        } else {
            self.statement()
        };
        if parsed.panic_mode {
            parsed.synchronize()
        } else {
            parsed
        }
    }

    /// A statement.
    pub open spec fn statement(self) -> ParserView
        decreases self.remaining(), 7int,
    {
        let kind = self.current.kind;
        if kind == TokenType::Print || kind == TokenType::For || kind == TokenType::If || kind
            == TokenType::While || kind == TokenType::LeftBrace {
            let inside = self.advance();
            if !inside.advanced(self) {
                inside
            } else if kind == TokenType::Print {
                inside.print_statement()
            } else if kind == TokenType::For {
                inside.for_statement()
            } else if kind == TokenType::If {
                inside.if_statement()
            } else if kind == TokenType::While {
                inside.while_statement()
            } else {
                inside.begin_scope().block().end_scope()
            }
        } else {
            self.expression_statement()
        }
    }

    /// Declarations up to the end of the source.
    pub open spec fn program(self) -> ParserView
        decreases self.remaining(),
    {
        if self.check(TokenType::Eof) {
            self.advance()
        } else {
            let item = self.declaration();
            if item.advanced(self) {
                item.program()
            } else {
                item
            }
        }
    }
}

/// The parser's state after the whole of `source` has been compiled onto
/// `chunk`.
pub open spec fn compiled(source: Seq<u8>, literals: Seq<u64>, chunk: ChunkView) -> ParserView {
    ParserView::begin(source, literals, chunk).advance().program().end_compiler()
}

} // verus!
