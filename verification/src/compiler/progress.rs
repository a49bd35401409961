//! The rules of the model never go back and never lose what was written.
//!
//! Every rule takes a well-formed state to a well-formed state that
//! [`ParserView::grows_from`] it. So the tests that make the rules
//! well-founded, [`ParserView::follows`] and [`ParserView::advanced`], hold
//! wherever a rule applies them, and the code, lines and constants that a
//! chunk held before a compilation are still in it afterwards.

use vstd::prelude::*;
use crate::chunk::{Opcode, MAX_CONSTANTS};
use crate::compiler::model::{ParserView, MAX_JUMP, MAX_LOCALS};
use crate::scanner::{next_moves_on, TokenType, TokenView};
use crate::value::ValueView;

verus! {

/// What grows from a state that grew from another grew from that one.
pub proof fn grows_transitively(a: ParserView, b: ParserView, c: ParserView)
    requires
        b.grows_from(a),
        c.grows_from(b),
    ensures
        c.grows_from(a),
{
    reveal(ParserView::grows_from);
    assert(c.chunk.code.take(a.here()) =~= a.chunk.code) by {
        assert forall|i: int| 0 <= i < a.here() implies c.chunk.code[i] == a.chunk.code[i] by {
            assert(c.chunk.code.take(b.here())[i] == b.chunk.code[i]);
            assert(b.chunk.code.take(a.here())[i] == a.chunk.code[i]);
        }
    }
    reveal(ParserView::wf);
    assert(c.chunk.lines.take(a.here()) =~= a.chunk.lines) by {
        assert forall|i: int| 0 <= i < a.here() implies c.chunk.lines[i] == a.chunk.lines[i] by {
            assert(c.chunk.lines.take(b.here())[i] == b.chunk.lines[i]);
            assert(b.chunk.lines.take(a.here())[i] == a.chunk.lines[i]);
        }
    }
    let n = a.chunk.constants.len() as int;
    assert(c.chunk.constants.take(n) =~= a.chunk.constants) by {
        assert forall|i: int| 0 <= i < n implies c.chunk.constants[i] == a.chunk.constants[i] by {
            assert(c.chunk.constants.take(b.chunk.constants.len() as int)[i]
                == b.chunk.constants[i]);
            assert(b.chunk.constants.take(n)[i] == a.chunk.constants[i]);
        }
    }
    let d = a.diagnostics.len() as int;
    assert(c.diagnostics.take(d) =~= a.diagnostics) by {
        assert forall|i: int| 0 <= i < d implies c.diagnostics[i] == a.diagnostics[i] by {
            assert(c.diagnostics.take(b.diagnostics.len() as int)[i] == b.diagnostics[i]);
            assert(b.diagnostics.take(d)[i] == a.diagnostics[i]);
        }
    }
}

/// A well-formed state grows from itself.
pub proof fn grows_from_itself(state: ParserView)
    requires
        state.wf(),
    ensures
        state.grows_from(state),
        state.extends(state),
{
    reveal(ParserView::grows_from);
    reveal(ParserView::wf);
    assert(state.chunk.code.take(state.here()) =~= state.chunk.code);
    assert(state.chunk.lines.take(state.here()) =~= state.chunk.lines);
    assert(state.chunk.constants.take(state.chunk.constants.len() as int)
        =~= state.chunk.constants);
    assert(state.diagnostics.take(state.diagnostics.len() as int) =~= state.diagnostics);
}

/// Growth shows in the open: what grew is well formed and extends what it
/// grew from.
pub proof fn growth_extends(state: ParserView, from: ParserView)
    requires
        state.grows_from(from),
    ensures
        state.wf(),
        from.wf(),
        state.extends(from),
        from.had_error ==> state.had_error,
{
    reveal(ParserView::grows_from);
}

/// Reporting an error changes only the record of errors.
pub proof fn error_at_grows(state: ParserView, token: TokenView, message: Seq<char>)
    requires
        state.wf(),
    ensures
        state.error_at(token, message).grows_from(state),
        state.error_at(token, message).extends(state),
        state.error_at(token, message).same_tokens(state),
        state.error_at(token, message).same_code(state),
{
    reveal(ParserView::error_at);
    reveal(ParserView::wf);
    reveal(ParserView::grows_from);
    let after = state.error_at(token, message);
    assert(after.chunk.code.take(state.here()) =~= state.chunk.code);
    assert(after.chunk.lines.take(state.here()) =~= state.chunk.lines);
    assert(after.chunk.constants.take(state.chunk.constants.len() as int)
        =~= state.chunk.constants);
    assert(after.diagnostics.take(state.diagnostics.len() as int) =~= state.diagnostics);
}

/// What `scan` needs of a state whose token in view is being replaced.
pub open spec fn ready_to_scan(state: ParserView) -> bool {
    &&& state.scanner.wf()
    &&& state.chunk.wf()
    &&& state.locals.len() <= MAX_LOCALS
    &&& 0 <= state.numbers_seen <= state.scanner.current
    &&& 0 <= state.scope_depth
    &&& (state.scope_depth <= state.scanner.current || (state.scanner.current
        == state.scanner.source.len() && state.scope_depth <= state.scanner.source.len() + 1))
    &&& (state.previous.kind == TokenType::String ==> crate::scanner::quoted(
        state.previous.lexeme,
    ))
    &&& (state.panic_mode ==> state.had_error)
}

proof fn scan_grows(state: ParserView)
    requires
        ready_to_scan(state),
    ensures
        ({
            let after = state.scan();
            &&& after.wf()
            &&& after.same_code(state)
            &&& after.scanner.source == state.scanner.source
            &&& after.literals == state.literals
            &&& after.previous == state.previous
            &&& state.scanner.current <= after.scanner.current
            &&& (after.current.kind != TokenType::Eof ==> state.scanner.current
                < after.scanner.current)
            &&& state.diagnostics.len() <= after.diagnostics.len()
            &&& after.diagnostics.take(state.diagnostics.len() as int) == state.diagnostics
            &&& (state.had_error ==> after.had_error)
        }),
    decreases state.scanner.source.len() - state.scanner.current,
{
    reveal(ParserView::scan);
    reveal(ParserView::wf);
    reveal(ParserView::error_at);
    next_moves_on(state.scanner);
    let (scanner, token) = state.scanner.next();
    let read = ParserView { scanner, current: token, ..state };
    let after = state.scan();
    if token.kind == TokenType::Error {
        let reported = read.error_at_current(token.lexeme);
        if state.scanner.reaches(reported.scanner) {
            scan_grows(reported);
            assert(after.diagnostics.take(state.diagnostics.len() as int) =~= state.diagnostics)
                by {
                assert forall|i: int| 0 <= i < state.diagnostics.len() implies after.diagnostics[i]
                    == state.diagnostics[i] by {
                    assert(after.diagnostics.take(reported.diagnostics.len() as int)[i]
                        == reported.diagnostics[i]);
                }
            }
        }
    } else {
        assert(after.diagnostics.take(state.diagnostics.len() as int) =~= state.diagnostics);
    }
}

/// Moving on by a token keeps the code and never goes back; while the end
/// is not reached it consumes a token, which leaves room to open a scope.
pub proof fn advance_grows(state: ParserView)
    requires
        state.wf(),
    ensures
        state.advance().grows_from(state),
        state.advance().extends(state),
        state.advance().same_code(state),
        state.advance().previous == state.current,
        state.current.kind != TokenType::Eof ==> state.advance().advanced(state)
            && state.advance().has_slack(),
{
    reveal(ParserView::advance);
    reveal(ParserView::wf);
    reveal(ParserView::grows_from);
    let begun = ParserView {
        previous: state.current,
        previous_number: state.current_number,
        ..state
    };
    scan_grows(begun);
    next_moves_on(state.scanner);
    let after = state.advance();
    assert(after.chunk.code.take(state.here()) =~= state.chunk.code);
    assert(after.chunk.lines.take(state.here()) =~= state.chunk.lines);
    assert(after.chunk.constants.take(state.chunk.constants.len() as int)
        =~= state.chunk.constants);
}

/// Accepting a token is moving on or staying.
pub proof fn accept_grows(state: ParserView, kind: TokenType)
    requires
        state.wf(),
    ensures
        state.accept(kind).grows_from(state),
        state.accept(kind).extends(state),
        state.accept(kind).same_code(state),
        state.accept(kind) == if state.check(kind) {
            state.advance()
        } else {
            state
        },
{
    reveal(ParserView::accept);
    advance_grows(state);
    grows_from_itself(state);
}

/// Consuming a token is moving on or reporting.
pub proof fn consume_grows(state: ParserView, kind: TokenType, message: Seq<char>)
    requires
        state.wf(),
    ensures
        state.consume(kind, message).grows_from(state),
        state.consume(kind, message).extends(state),
        state.consume(kind, message).same_code(state),
{
    reveal(ParserView::consume);
    advance_grows(state);
    error_at_grows(state, state.current, message);
}

/// Writing a byte appends it with its line and changes nothing else.
pub proof fn emit_byte_grows(state: ParserView, byte: u8)
    requires
        state.wf(),
    ensures
        state.emit_byte(byte).grows_from(state),
        state.emit_byte(byte).extends(state),
        state.emit_byte(byte).same_tokens(state),
        state.emit_byte(byte).same_locals(state),
        state.emit_byte(byte).here() == state.here() + 1,
{
    reveal(ParserView::wf);
    reveal(ParserView::grows_from);
    let after = state.emit_byte(byte);
    assert(after.chunk.code.take(state.here()) =~= state.chunk.code);
    assert(after.chunk.lines.take(state.here()) =~= state.chunk.lines);
    assert(after.chunk.constants.take(state.chunk.constants.len() as int)
        =~= state.chunk.constants);
    assert(after.diagnostics.take(state.diagnostics.len() as int) =~= state.diagnostics);
}

/// Writing bytes appends them.
pub proof fn emit_bytes_grows(state: ParserView, bytes: Seq<u8>)
    requires
        state.wf(),
    ensures
        state.emit_bytes(bytes).grows_from(state),
        state.emit_bytes(bytes).extends(state),
        state.emit_bytes(bytes).same_tokens(state),
        state.emit_bytes(bytes).same_locals(state),
        state.emit_bytes(bytes).here() == state.here() + bytes.len(),
    decreases bytes.len(),
{
    reveal(ParserView::emit_bytes);
    if bytes.len() == 0 {
        grows_from_itself(state);
    } else {
        let front = state.emit_bytes(bytes.drop_last());
        emit_bytes_grows(state, bytes.drop_last());
        growth_extends(front, state);
        emit_byte_grows(front, bytes.last());
        grows_transitively(state, front, front.emit_byte(bytes.last()));
    }
}

/// Writing a jump appends its three bytes.
pub proof fn emit_jump_grows(state: ParserView, instruction: u8)
    requires
        state.wf(),
    ensures
        state.emit_jump(instruction).grows_from(state),
        state.emit_jump(instruction).extends(state),
        state.emit_jump(instruction).same_tokens(state),
        state.emit_jump(instruction).same_locals(state),
        state.emit_jump(instruction).here() == state.here() + 3,
        state.jump_operand() + 2 == state.emit_jump(instruction).here(),
{
    let a = state.emit_byte(instruction);
    emit_byte_grows(state, instruction);
    growth_extends(a, state);
    let b = a.emit_byte(0xff);
    emit_byte_grows(a, 0xff);
    growth_extends(b, a);
    emit_byte_grows(b, 0xff);
    grows_transitively(state, a, b);
    grows_transitively(state, b, b.emit_byte(0xff));
}

/// Writing a loop appends its three bytes.
pub proof fn emit_loop_grows(state: ParserView, loop_start: int)
    requires
        state.wf(),
    ensures
        state.emit_loop(loop_start).grows_from(state),
        state.emit_loop(loop_start).extends(state),
        state.emit_loop(loop_start).same_tokens(state),
        state.emit_loop(loop_start).same_locals(state),
        state.emit_loop(loop_start).here() == state.here() + 3,
{
    reveal(ParserView::emit_loop);
    let looped = state.emit_byte(Opcode::Loop.byte());
    emit_byte_grows(state, Opcode::Loop.byte());
    growth_extends(looped, state);
    let distance = looped.here() - loop_start + 2;
    let checked = if distance > MAX_JUMP {
        looped.error("Loop body too large."@)
    } else {
        looped
    };
    error_at_grows(looped, looped.previous, "Loop body too large."@);
    grows_from_itself(looped);
    growth_extends(checked, looped);
    grows_transitively(state, looped, checked);
    let bytes = seq![(distance % 256) as u8, ((distance / 256) % 256) as u8];
    emit_bytes_grows(checked, bytes);
    grows_transitively(state, checked, checked.emit_bytes(bytes));
}

/// Patching a jump whose operand was written since `base` keeps what
/// `base` held.
pub proof fn patch_jump_grows(state: ParserView, offset: int, base: ParserView)
    requires
        state.grows_from(base),
        base.here() <= offset,
        offset + 2 <= state.here(),
    ensures
        state.patch_jump(offset).grows_from(base),
        state.patch_jump(offset).extends(state),
        state.patch_jump(offset).same_tokens(state),
        state.patch_jump(offset).same_locals(state),
        state.patch_jump(offset).here() == state.here(),
        state.had_error ==> state.patch_jump(offset).had_error,
{
    reveal(ParserView::patch_jump);
    reveal(ParserView::grows_from);
    reveal(ParserView::wf);
    let after = state.patch_jump(offset);
    let jump = state.here() - offset - 2;
    if jump > MAX_JUMP {
        error_at_grows(state, state.previous, "Too much code to jump over."@);
        grows_transitively(base, state, after);
    } else {
        assert(after.chunk.code.take(base.here()) =~= base.chunk.code) by {
            assert forall|i: int| 0 <= i < base.here() implies after.chunk.code[i]
                == base.chunk.code[i] by {
                assert(state.chunk.code.take(base.here())[i] == base.chunk.code[i]);
            }
        }
    }
}

/// Patching a jump whose operand lies in the code keeps the state well
/// formed and changes nothing but the operand, or reports an error.
pub proof fn patch_jump_is_sound(state: ParserView, offset: int)
    requires
        state.wf(),
        0 <= offset,
        offset + 2 <= state.here(),
    ensures
        state.patch_jump(offset).wf(),
        state.patch_jump(offset).extends(state),
        state.patch_jump(offset).same_tokens(state),
        state.patch_jump(offset).same_locals(state),
        state.patch_jump(offset).here() == state.here(),
        state.had_error ==> state.patch_jump(offset).had_error,
{
    reveal(ParserView::patch_jump);
    reveal(ParserView::wf);
    error_at_grows(state, state.previous, "Too much code to jump over."@);
    growth_extends(state.error("Too much code to jump over."@), state);
}

/// Putting a constant into the pool appends it, or changes nothing.
pub proof fn make_constant_grows(state: ParserView, value: ValueView)
    requires
        state.wf(),
    ensures
        state.make_constant(value).grows_from(state),
        state.make_constant(value).extends(state),
        state.make_constant(value).same_tokens(state),
        state.make_constant(value).same_locals(state),
        state.make_constant(value).here() == state.here(),
{
    reveal(ParserView::make_constant);
    reveal(ParserView::grows_from);
    reveal(ParserView::wf);
    let after = state.make_constant(value);
    error_at_grows(state, state.previous, "Too many constants in one chunk."@);
    grows_from_itself(state);
    if state.chunk.find(value) is None && state.chunk.constants.len() < MAX_CONSTANTS {
        assert(after.chunk.code.take(state.here()) =~= state.chunk.code);
        assert(after.chunk.lines.take(state.here()) =~= state.chunk.lines);
        assert(after.chunk.constants.take(state.chunk.constants.len() as int)
            =~= state.chunk.constants);
        assert(after.diagnostics.take(state.diagnostics.len() as int) =~= state.diagnostics);
    }
}

/// Loading a constant appends two bytes.
pub proof fn emit_constant_grows(state: ParserView, value: ValueView)
    requires
        state.wf(),
    ensures
        state.emit_constant(value).grows_from(state),
        state.emit_constant(value).extends(state),
        state.emit_constant(value).same_tokens(state),
        state.emit_constant(value).same_locals(state),
{
    reveal(ParserView::emit_constant);
    let made = state.make_constant(value);
    make_constant_grows(state, value);
    growth_extends(made, state);
    let bytes = seq![Opcode::Constant.byte(), state.constant_id(value)];
    emit_bytes_grows(made, bytes);
    grows_transitively(state, made, made.emit_bytes(bytes));
}

/// Closing the chunk appends `Return`.
pub proof fn end_compiler_grows(state: ParserView)
    requires
        state.wf(),
    ensures
        state.end_compiler().grows_from(state),
        state.end_compiler().extends(state),
        state.end_compiler().same_locals(state),
{
    emit_byte_grows(state, Opcode::Return.byte());
}

/// Opening a scope, after a token that opens one, changes only the depth.
pub proof fn begin_scope_grows(state: ParserView)
    requires
        state.wf(),
        state.has_slack(),
    ensures
        state.begin_scope().grows_from(state),
        state.begin_scope().extends(state),
        state.begin_scope().same_tokens(state),
        state.begin_scope().scope_depth == state.scope_depth + 1,
        state.begin_scope().scope_depth > 0,
        state.begin_scope().here() == state.here(),
{
    reveal(ParserView::wf);
    reveal(ParserView::grows_from);
    let after = state.begin_scope();
    assert(after.chunk.code.take(state.here()) =~= state.chunk.code);
    assert(after.chunk.lines.take(state.here()) =~= state.chunk.lines);
    assert(after.chunk.constants.take(state.chunk.constants.len() as int)
        =~= state.chunk.constants);
    assert(after.diagnostics.take(state.diagnostics.len() as int) =~= state.diagnostics);
}

proof fn pop_locals_grows(state: ParserView)
    requires
        state.wf(),
    ensures
        state.pop_locals().grows_from(state),
        state.pop_locals().extends(state),
        state.pop_locals().same_tokens(state),
        state.pop_locals().scope_depth == state.scope_depth,
    decreases state.locals.len(),
{
    reveal(ParserView::pop_locals);
    if state.locals.len() > 0 && crate::compiler::model::deeper(
        state.locals.last().depth,
        state.scope_depth,
    ) {
        let emitted = state.emit_byte(Opcode::Pop.byte());
        emit_byte_grows(state, Opcode::Pop.byte());
        let popped = ParserView { locals: state.locals.drop_last(), ..emitted };
        assert(popped.grows_from(state)) by {
            reveal(ParserView::wf);
            reveal(ParserView::grows_from);
        }
        growth_extends(popped, state);
        pop_locals_grows(popped);
        grows_transitively(state, popped, popped.pop_locals());
    } else {
        grows_from_itself(state);
    }
}

/// Closing a scope changes the depth, drops locals and appends code.
pub proof fn end_scope_grows(state: ParserView)
    requires
        state.wf(),
        state.scope_depth > 0,
    ensures
        state.end_scope().grows_from(state),
        state.end_scope().extends(state),
        state.end_scope().same_tokens(state),
        state.end_scope().scope_depth == state.scope_depth - 1,
{
    reveal(ParserView::end_scope);
    let lowered = state.end_scope_begin();
    assert(lowered.grows_from(state)) by {
        reveal(ParserView::wf);
        reveal(ParserView::grows_from);
        assert(lowered.chunk.code.take(state.here()) =~= state.chunk.code);
        assert(lowered.chunk.lines.take(state.here()) =~= state.chunk.lines);
        assert(lowered.chunk.constants.take(state.chunk.constants.len() as int)
            =~= state.chunk.constants);
        assert(lowered.diagnostics.take(state.diagnostics.len() as int)
            =~= state.diagnostics);
    }
    growth_extends(lowered, state);
    pop_locals_grows(lowered);
    grows_transitively(state, lowered, lowered.pop_locals());
}

/// A number literal loads a constant.
pub proof fn number_grows(state: ParserView)
    requires
        state.wf(),
    ensures
        state.number().grows_from(state),
        state.number().extends(state),
        state.number().same_tokens(state),
        state.number().same_locals(state),
{
    reveal(ParserView::number);
    emit_constant_grows(state, ValueView::Number(state.previous_number));
}

/// A string literal loads a constant.
pub proof fn string_grows(state: ParserView)
    requires
        state.wf(),
    ensures
        state.string().grows_from(state),
        state.string().extends(state),
        state.string().same_tokens(state),
        state.string().same_locals(state),
{
    reveal(ParserView::string);
    emit_constant_grows(
        state,
        ValueView::String(crate::compiler::model::unquoted(state.previous.lexeme)),
    );
}

/// A literal keyword appends at most one byte.
pub proof fn literal_grows(state: ParserView)
    requires
        state.wf(),
    ensures
        state.literal().grows_from(state),
        state.literal().extends(state),
        state.literal().same_tokens(state),
        state.literal().same_locals(state),
{
    reveal(ParserView::literal);
    emit_byte_grows(state, Opcode::False.byte());
    emit_byte_grows(state, Opcode::Nil.byte());
    emit_byte_grows(state, Opcode::True.byte());
    grows_from_itself(state);
}

/// Naming a global puts its name into the pool.
pub proof fn identifier_constant_grows(state: ParserView, name: TokenView)
    requires
        state.wf(),
    ensures
        state.identifier_constant(name).grows_from(state),
        state.identifier_constant(name).extends(state),
        state.identifier_constant(name).same_tokens(state),
        state.identifier_constant(name).same_locals(state),
        state.identifier_constant(name).here() == state.here(),
{
    reveal(ParserView::identifier_constant);
    make_constant_grows(state, ValueView::String(name.lexeme));
}

/// Resolving a local reports at most an error.
pub proof fn resolve_local_grows(state: ParserView, name: TokenView)
    requires
        state.wf(),
    ensures
        state.resolve_local(name).grows_from(state),
        state.resolve_local(name).extends(state),
        state.resolve_local(name).same_tokens(state),
        state.resolve_local(name).same_code(state),
{
    reveal(ParserView::resolve_local);
    error_at_grows(
        state,
        state.previous,
        "Can't read local variable in its own initializer."@,
    );
    grows_from_itself(state);
}

/// Adding a local changes only the locals, or reports an error.
pub proof fn add_local_grows(state: ParserView, name: TokenView)
    requires
        state.wf(),
    ensures
        state.add_local(name).grows_from(state),
        state.add_local(name).extends(state),
        state.add_local(name).same_tokens(state),
        state.add_local(name).scope_depth == state.scope_depth,
        state.add_local(name).here() == state.here(),
{
    reveal(ParserView::add_local);
    error_at_grows(state, state.previous, "Too many local variables in function."@);
    if state.locals.len() < MAX_LOCALS {
        reveal(ParserView::wf);
        reveal(ParserView::grows_from);
        let after = state.add_local(name);
        assert(after.chunk.code.take(state.here()) =~= state.chunk.code);
        assert(after.chunk.lines.take(state.here()) =~= state.chunk.lines);
        assert(after.chunk.constants.take(state.chunk.constants.len() as int)
            =~= state.chunk.constants);
        assert(after.diagnostics.take(state.diagnostics.len() as int) =~= state.diagnostics);
    }
}

/// Declaring a variable changes only the locals, or reports an error.
pub proof fn declare_variable_grows(state: ParserView)
    requires
        state.wf(),
    ensures
        state.declare_variable().grows_from(state),
        state.declare_variable().extends(state),
        state.declare_variable().same_tokens(state),
        state.declare_variable().scope_depth == state.scope_depth,
        state.declare_variable().here() == state.here(),
{
    reveal(ParserView::declare_variable);
    if state.scope_depth == 0 {
        grows_from_itself(state);
    } else {
        let checked = if crate::compiler::model::declared_in_scope(
            state.locals,
            state.previous.lexeme,
            state.scope_depth,
        ) {
            state.error("Already a variable with this name in this scope."@)
        } else {
            state
        };
        error_at_grows(
            state,
            state.previous,
            "Already a variable with this name in this scope."@,
        );
        grows_from_itself(state);
        growth_extends(checked, state);
        add_local_grows(checked, state.previous);
        grows_transitively(state, checked, checked.add_local(state.previous));
    }
}

/// Parsing a variable's name consumes at most a token and writes no code.
pub proof fn parse_variable_grows(state: ParserView, message: Seq<char>)
    requires
        state.wf(),
    ensures
        state.parse_variable(message).grows_from(state),
        state.parse_variable(message).extends(state),
        state.parse_variable(message).scope_depth == state.scope_depth,
        state.parse_variable(message).here() == state.here(),
{
    reveal(ParserView::parse_variable);
    let named = state.consume(TokenType::Identifier, message);
    consume_grows(state, TokenType::Identifier, message);
    growth_extends(named, state);
    let declared = named.declare_variable();
    declare_variable_grows(named);
    growth_extends(declared, named);
    grows_transitively(state, named, declared);
    identifier_constant_grows(declared, declared.previous);
    grows_transitively(state, declared, declared.identifier_constant(declared.previous));
}

/// Marking a local initialized changes only its depth.
pub proof fn mark_initialized_grows(state: ParserView)
    requires
        state.wf(),
    ensures
        state.mark_initialized().grows_from(state),
        state.mark_initialized().extends(state),
        state.mark_initialized().same_tokens(state),
        state.mark_initialized().same_scopes(state),
{
    reveal(ParserView::mark_initialized);
    reveal(ParserView::wf);
    reveal(ParserView::grows_from);
    let after = state.mark_initialized();
    assert(after.chunk.code.take(state.here()) =~= state.chunk.code);
    assert(after.chunk.lines.take(state.here()) =~= state.chunk.lines);
    assert(after.chunk.constants.take(state.chunk.constants.len() as int)
        =~= state.chunk.constants);
    assert(after.diagnostics.take(state.diagnostics.len() as int) =~= state.diagnostics);
}

/// Defining a variable marks a local or appends two bytes.
pub proof fn define_variable_grows(state: ParserView, global: u8)
    requires
        state.wf(),
    ensures
        state.define_variable(global).grows_from(state),
        state.define_variable(global).extends(state),
        state.define_variable(global).same_tokens(state),
        state.define_variable(global).same_scopes(state),
{
    reveal(ParserView::define_variable);
    mark_initialized_grows(state);
    emit_bytes_grows(state, seq![Opcode::DefineGlobal.byte(), global]);
}

proof fn skip_to_statement_grows(state: ParserView)
    requires
        state.wf(),
    ensures
        state.skip_to_statement().grows_from(state),
        state.skip_to_statement().extends(state),
        state.skip_to_statement().same_code(state),
    decreases state.remaining(),
{
    reveal(ParserView::skip_to_statement);
    grows_from_itself(state);
    if !(state.check(TokenType::Eof) || state.previous.kind == TokenType::Semicolon) {
        advance_grows(state);
        let moved = state.advance();
        growth_extends(moved, state);
        if moved.advanced(state) {
            skip_to_statement_grows(moved);
            grows_transitively(state, moved, moved.skip_to_statement());
        }
    }
}

/// Synchronizing skips tokens and writes no code.
pub proof fn synchronize_grows(state: ParserView)
    requires
        state.wf(),
    ensures
        state.synchronize().grows_from(state),
        state.synchronize().extends(state),
        state.synchronize().same_code(state),
{
    reveal(ParserView::synchronize);
    let calm = ParserView { panic_mode: false, ..state };
    assert(calm.grows_from(state)) by {
        reveal(ParserView::wf);
        reveal(ParserView::grows_from);
        assert(calm.chunk.code.take(state.here()) =~= state.chunk.code);
        assert(calm.chunk.lines.take(state.here()) =~= state.chunk.lines);
        assert(calm.chunk.constants.take(state.chunk.constants.len() as int)
            =~= state.chunk.constants);
        assert(calm.diagnostics.take(state.diagnostics.len() as int) =~= state.diagnostics);
    }
    growth_extends(calm, state);
    skip_to_statement_grows(calm);
    grows_transitively(state, calm, calm.skip_to_statement());
}

} // verus!
