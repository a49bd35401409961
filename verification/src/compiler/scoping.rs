//! Scope discipline, the parts: what it means that the locals are in order,
//! and what the rules that declare and define variables do to them.

use vstd::prelude::*;
use crate::chunk::Opcode;
use crate::compiler::induction::{
    expression_grows, expression_statement_grows, var_declaration_grows,
};
use crate::compiler::laws::end_of_scope_pops_its_locals;
use crate::compiler::model::{declared_in_scope, deeper, LocalView, ParserView};
use crate::compiler::progress::{
    advance_grows, consume_grows, emit_byte_grows, emit_bytes_grows, error_at_grows,
    growth_extends, identifier_constant_grows,
};
use crate::scanner::TokenType;

verus! {

/// Whether a local is initialized and lies in a scope of at most `depth`.
pub open spec fn settled(local: LocalView, depth: int) -> bool {
    match local.depth {
        Some(d) => 1 <= d <= depth,
        None => false,
    }
}

/// Whether every local is initialized and lies in a scope that is open: the
/// state between two statements where no error was found.
#[verifier::opaque]
pub open spec fn tidy(state: ParserView) -> bool {
    &&& 0 <= state.scope_depth
    &&& forall|i: int|
        0 <= i < state.locals.len() ==> settled(#[trigger] state.locals[i], state.scope_depth)
}

/// Whether `after` has the locals of `before` and behind them only locals
/// of the scope that `before` stands in, at the same depth of scopes.
#[verifier::opaque]
pub open spec fn declares_into(after: ParserView, before: ParserView) -> bool {
    &&& after.scope_depth == before.scope_depth
    &&& before.locals.len() <= after.locals.len()
    &&& after.locals.take(before.locals.len() as int) == before.locals
    &&& forall|i: int|
        before.locals.len() <= i < after.locals.len() ==> (#[trigger] after.locals[i]).depth
            == Some(before.scope_depth)
    &&& (before.scope_depth == 0 ==> after.locals.len() == before.locals.len())
}

/// The same locals in a scope at least as deep are tidy too.
pub proof fn tidy_carries(from: ParserView, to: ParserView)
    requires
        tidy(from),
        to.locals == from.locals,
        to.scope_depth >= from.scope_depth,
    ensures
        tidy(to),
{
    reveal(tidy);
    assert forall|i: int| 0 <= i < to.locals.len() implies settled(
        #[trigger] to.locals[i],
        to.scope_depth,
    ) by {
        assert(settled(from.locals[i], from.scope_depth));
    }
}

/// A state with the same locals at the same depth declares nothing.
pub proof fn keeping_is_declaring(before: ParserView, after: ParserView)
    requires
        after.locals == before.locals,
        after.scope_depth == before.scope_depth,
    ensures
        declares_into(after, before),
{
    reveal(declares_into);
    assert(after.locals.take(before.locals.len() as int) =~= before.locals);
}

/// Declaring into a tidy state gives a tidy state.
pub proof fn declared_is_tidy(before: ParserView, after: ParserView)
    requires
        tidy(before),
        declares_into(after, before),
    ensures
        tidy(after),
{
    reveal(tidy);
    reveal(declares_into);
    assert forall|i: int| 0 <= i < after.locals.len() implies settled(
        #[trigger] after.locals[i],
        after.scope_depth,
    ) by {
        if i < before.locals.len() {
            assert(after.locals.take(before.locals.len() as int)[i] == before.locals[i]);
            assert(settled(before.locals[i], before.scope_depth));
        }
    }
}

/// Declaring twice is declaring.
pub proof fn declaring_chains(a: ParserView, b: ParserView, c: ParserView)
    requires
        declares_into(b, a),
        declares_into(c, b),
    ensures
        declares_into(c, a),
{
    reveal(declares_into);
    assert(c.locals.take(a.locals.len() as int) =~= a.locals) by {
        assert forall|i: int| 0 <= i < a.locals.len() implies c.locals[i] == a.locals[i] by {
            assert(c.locals.take(b.locals.len() as int)[i] == b.locals[i]);
            assert(b.locals.take(a.locals.len() as int)[i] == a.locals[i]);
        }
    }
    assert forall|i: int| a.locals.len() <= i < c.locals.len() implies (
    #[trigger] c.locals[i]).depth == Some(a.scope_depth) by {
        if i < b.locals.len() {
            assert(c.locals.take(b.locals.len() as int)[i] == b.locals[i]);
        }
    }
}

/// Declaring is a matter of the locals and the depth alone.
pub proof fn declaring_transfers(a: ParserView, b: ParserView, a2: ParserView, b2: ParserView)
    requires
        declares_into(b, a),
        a2.locals == a.locals,
        a2.scope_depth == a.scope_depth,
        b2.locals == b.locals,
        b2.scope_depth == b.scope_depth,
    ensures
        declares_into(b2, a2),
{
    reveal(declares_into);
}

/// The end of a scope pops exactly the locals that were declared in it, with
/// one `Pop` for each, and leaves the locals of the scope around it.
pub proof fn scope_end_restores(outer: ParserView, inner: ParserView, body: ParserView)
    requires
        tidy(outer),
        inner.locals == outer.locals,
        inner.scope_depth == outer.scope_depth + 1,
        declares_into(body, inner),
    ensures
        outer.locals.len() <= body.locals.len(),
        body.end_scope().locals == outer.locals,
        body.end_scope().scope_depth == outer.scope_depth,
        body.end_scope().chunk.code == body.chunk.code + Seq::new(
            (body.locals.len() - outer.locals.len()) as nat,
            |i: int| Opcode::Pop.byte(),
        ),
{
    reveal(tidy);
    reveal(declares_into);
    end_of_scope_pops_its_locals(body);
    let n = outer.locals.len() as int;
    let left = body.end_scope().locals.len() as int;
    assert forall|i: int| 0 <= i < n implies !deeper(
        (#[trigger] body.locals[i]).depth,
        body.scope_depth - 1,
    ) by {
        assert(body.locals.take(n)[i] == outer.locals[i]);
        assert(settled(outer.locals[i], outer.scope_depth));
    }
    if left > n {
        assert(deeper(body.locals[left - 1].depth, body.scope_depth - 1));
    }
    if left < n {
        assert(!deeper(body.locals[left].depth, body.scope_depth - 1));
    }
}

/// Where no error is found, the name of a variable in a block becomes a new
/// local that is not yet initialized; in the global scope the locals stay.
pub proof fn parse_variable_scopes(state: ParserView, message: Seq<char>)
    requires
        state.wf(),
    ensures
        ({
            let named = state.parse_variable(message);
            let n = state.locals.len() as int;
            &&& named.scope_depth == state.scope_depth
            &&& (state.scope_depth == 0 ==> named.locals == state.locals)
            &&& (state.scope_depth > 0 && !named.had_error ==> named.locals.len() == n + 1
                && named.locals.take(n) == state.locals && named.locals.last().depth is None)
        }),
{
    reveal(ParserView::parse_variable);
    reveal(ParserView::declare_variable);
    reveal(ParserView::add_local);
    let found = state.consume(TokenType::Identifier, message);
    consume_grows(state, TokenType::Identifier, message);
    growth_extends(found, state);
    assert(state.scope_depth >= 0) by {
        reveal(ParserView::wf);
    }
    if state.scope_depth != 0 {
        let clash = "Already a variable with this name in this scope."@;
        let full = "Too many local variables in function."@;
        let checked = if declared_in_scope(found.locals, found.previous.lexeme, found.scope_depth) {
            found.error(clash)
        } else {
            found
        };
        error_at_grows(found, found.previous, clash);
        growth_extends(found.error(clash), found);
        assert(found.error(clash).had_error) by {
            reveal(ParserView::error_at);
            reveal(ParserView::wf);
        }
        error_at_grows(checked, checked.previous, full);
        assert(checked.error(full).had_error) by {
            reveal(ParserView::error_at);
            reveal(ParserView::wf);
        }
        let declared = checked.add_local(found.previous);
        if !declared.had_error {
            assert(declared.locals.take(state.locals.len() as int) =~= state.locals);
        }
    } else {
        identifier_constant_grows(found, found.previous);
    }
}

/// Writing code finds no error.
proof fn emit_bytes_keep_errors(state: ParserView, bytes: Seq<u8>)
    ensures
        state.emit_bytes(bytes).had_error == state.had_error,
    decreases bytes.len(),
{
    reveal(ParserView::emit_bytes);
    if bytes.len() > 0 {
        emit_bytes_keep_errors(state, bytes.drop_last());
    }
}

/// Defining a variable in a block marks the newest local initialized at the
/// depth of the block; in the global scope the locals stay. No error is
/// found on the way.
pub proof fn define_variable_scopes(state: ParserView, global: u8)
    requires
        state.wf(),
    ensures
        ({
            let defined = state.define_variable(global);
            let n = state.locals.len() as int;
            &&& defined.scope_depth == state.scope_depth
            &&& defined.had_error == state.had_error
            &&& if state.scope_depth > 0 && n > 0 {
                defined.locals == state.locals.update(
                    n - 1,
                    LocalView { depth: Some(state.scope_depth), ..state.locals.last() },
                )
            } else {
                defined.locals == state.locals
            }
        }),
{
    reveal(ParserView::define_variable);
    reveal(ParserView::mark_initialized);
    emit_bytes_grows(state, seq![Opcode::DefineGlobal.byte(), global]);
    emit_bytes_keep_errors(state, seq![Opcode::DefineGlobal.byte(), global]);
}

/// Where no error is found, a variable declaration in a block adds one
/// local, initialized at the depth of the block; in the global scope it adds
/// none.
pub proof fn var_declaration_scopes(state: ParserView)
    requires
        state.wf(),
    ensures
        !state.var_declaration().had_error ==> declares_into(state.var_declaration(), state),
{
    let message = "Expect variable name."@;
    let global = state.variable_id(message);
    let named = state.parse_variable(message);
    crate::compiler::progress::parse_variable_grows(state, message);
    parse_variable_scopes(state, message);
    growth_extends(named, state);
    let valued = if named.check(TokenType::Equal) {
        advance_grows(named);
        let moved = named.advance();
        growth_extends(moved, named);
        expression_grows(moved);
        growth_extends(moved.expression(), moved);
        moved.expression()
    } else {
        emit_byte_grows(named, Opcode::Nil.byte());
        growth_extends(named.emit_byte(Opcode::Nil.byte()), named);
        named.emit_byte(Opcode::Nil.byte())
    };
    let ended = valued.consume(TokenType::Semicolon, "Expect ';' after variable declaration."@);
    consume_grows(valued, TokenType::Semicolon, "Expect ';' after variable declaration."@);
    growth_extends(ended, valued);
    define_variable_scopes(ended, global);
    let defined = ended.define_variable(global);
    assert(state.scope_depth >= 0) by {
        reveal(ParserView::wf);
    }
    if !defined.had_error {
        if state.scope_depth > 0 {
            let n = state.locals.len() as int;
            assert(declares_into(defined, state)) by {
                reveal(declares_into);
                assert(defined.locals.take(n) =~= state.locals) by {
                    assert forall|i: int| 0 <= i < n implies defined.locals[i]
                        == state.locals[i] by {
                        assert(named.locals.take(n)[i] == state.locals[i]);
                    }
                }
            }
        } else {
            keeping_is_declaring(state, defined);
        }
    }
}

/// Where no error is found, the first clause of a for statement adds at
/// most one local, to the scope of the statement.
pub proof fn for_initializer_scopes(state: ParserView)
    requires
        state.wf(),
    ensures
        !state.for_initializer().had_error ==> declares_into(state.for_initializer(), state),
{
    advance_grows(state);
    let moved = state.advance();
    growth_extends(moved, state);
    if state.check(TokenType::Semicolon) {
        keeping_is_declaring(state, moved);
    } else if state.check(TokenType::Var) {
        var_declaration_grows(moved);
        var_declaration_scopes(moved);
        if !moved.var_declaration().had_error {
            declaring_transfers(moved, moved.var_declaration(), state, moved.var_declaration());
        }
    } else {
        expression_statement_grows(state);
        keeping_is_declaring(state, state.expression_statement());
    }
}

} // verus!
