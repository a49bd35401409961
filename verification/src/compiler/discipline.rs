//! Scope discipline, the whole: where no error is found, a statement leaves
//! the locals as it found them, a declaration adds at most a local of the
//! scope it stands in, and the end of a block pops exactly the locals that
//! were declared in the block.

use vstd::prelude::*;
use crate::chunk::Opcode;
use crate::compiler::induction::{
    block_items_grows, declaration_grows, expression_grows,
    expression_statement_grows, for_condition_grows, for_increment_grows, for_initializer_grows,
    statement_grows, var_declaration_grows,
};
use crate::compiler::model::ParserView;
use crate::compiler::progress::{
    accept_grows, advance_grows, begin_scope_grows, consume_grows, emit_byte_grows,
    emit_jump_grows, emit_loop_grows, end_scope_grows, growth_extends, patch_jump_is_sound,
    synchronize_grows,
};
use crate::compiler::scoping::{
    declared_is_tidy, declares_into, declaring_chains, declaring_transfers,
    for_initializer_scopes, keeping_is_declaring, scope_end_restores, tidy, tidy_carries,
    var_declaration_scopes,
};
use crate::scanner::TokenType;

verus! {

/// Where no error is found, a statement of any kind leaves the locals as it
/// found them.
pub proof fn statement_keeps_the_locals(state: ParserView)
    requires
        state.wf(),
        tidy(state),
    ensures
        !state.statement().had_error ==> state.statement().locals == state.locals,
    decreases state.remaining(), 7int,
{
    let kind = state.current.kind;
    if kind == TokenType::Print || kind == TokenType::For || kind == TokenType::If || kind
        == TokenType::While || kind == TokenType::LeftBrace {
        advance_grows(state);
        let inside = state.advance();
        growth_extends(inside, state);
        tidy_carries(state, inside);
        if kind == TokenType::Print {
            expression_grows(inside);
            let value = inside.expression();
            growth_extends(value, inside);
            let ended = value.consume(TokenType::Semicolon, "Expect ';' after value."@);
            consume_grows(value, TokenType::Semicolon, "Expect ';' after value."@);
            growth_extends(ended, value);
            emit_byte_grows(ended, Opcode::Print.byte());
        } else if kind == TokenType::For {
            for_statement_keeps_the_locals(inside);
        } else if kind == TokenType::If {
            if_statement_keeps_the_locals(inside);
        } else if kind == TokenType::While {
            while_statement_keeps_the_locals(inside);
        } else {
            block_keeps_the_locals(inside);
        }
    } else {
        expression_statement_grows(state);
    }
}

/// Where no error is found, a block ends with the locals with which it
/// began: the end of its scope pops exactly the locals that were declared in
/// it, with one `Pop` for each.
pub proof fn block_keeps_the_locals(state: ParserView)
    requires
        state.wf(),
        state.has_slack(),
        tidy(state),
    ensures
        ({
            let body = state.begin_scope().block();
            let end = body.end_scope();
            !end.had_error ==> {
                &&& end.locals == state.locals
                &&& end.scope_depth == state.scope_depth
                &&& state.locals.len() <= body.locals.len()
                &&& end.chunk.code == body.chunk.code + Seq::new(
                    (body.locals.len() - state.locals.len()) as nat,
                    |i: int| Opcode::Pop.byte(),
                )
            }
        }),
    decreases state.remaining(), 10int,
{
    let scoped = state.begin_scope();
    begin_scope_grows(state);
    growth_extends(scoped, state);
    tidy_carries(state, scoped);
    block_items_grows(scoped);
    let items = scoped.block_items();
    growth_extends(items, scoped);
    let body = items.consume(TokenType::RightBrace, "Expect '}' after block."@);
    consume_grows(items, TokenType::RightBrace, "Expect '}' after block."@);
    growth_extends(body, items);
    end_scope_grows(body);
    let end = body.end_scope();
    growth_extends(end, body);
    if !end.had_error {
        block_items_scope(scoped);
        declaring_transfers(scoped, items, scoped, body);
        scope_end_restores(state, scoped, body);
    }
}

/// Where no error is found, the declarations of a block add only locals of
/// the block.
pub proof fn block_items_scope(state: ParserView)
    requires
        state.wf(),
        tidy(state),
    ensures
        !state.block_items().had_error ==> declares_into(state.block_items(), state),
    decreases state.remaining(), 9int,
{
    reveal(ParserView::declaration);
    if !state.check(TokenType::RightBrace) && !state.check(TokenType::Eof) {
        declaration_grows(state);
        let item = state.declaration();
        growth_extends(item, state);
        block_items_grows(item);
        let rest = item.block_items();
        growth_extends(rest, item);
        if !rest.had_error {
            declaration_scopes(state);
            declared_is_tidy(state, item);
            block_items_scope(item);
            declaring_chains(state, item, rest);
        }
    } else {
        keeping_is_declaring(state, state);
    }
}

/// Where no error is found, a declaration adds at most one local, and that
/// one to the scope it stands in.
pub proof fn declaration_scopes(state: ParserView)
    requires
        state.wf(),
        tidy(state),
    ensures
        !state.declaration().had_error ==> declares_into(state.declaration(), state),
    decreases state.remaining(), 8int,
{
    reveal(ParserView::declaration);
    if state.check(TokenType::Var) {
        advance_grows(state);
        let moved = state.advance();
        growth_extends(moved, state);
        var_declaration_grows(moved);
        let parsed = moved.var_declaration();
        growth_extends(parsed, moved);
        synchronize_grows(parsed);
        growth_extends(parsed.synchronize(), parsed);
        let done = state.declaration();
        if !done.had_error {
            var_declaration_scopes(moved);
            declaring_transfers(moved, parsed, state, done);
        }
    } else {
        statement_grows(state);
        let parsed = state.statement();
        growth_extends(parsed, state);
        synchronize_grows(parsed);
        growth_extends(parsed.synchronize(), parsed);
        let done = state.declaration();
        if !done.had_error {
            statement_keeps_the_locals(state);
            keeping_is_declaring(state, done);
        }
    }
}

/// Where no error is found, a while statement leaves the locals as it found
/// them.
pub proof fn while_statement_keeps_the_locals(state: ParserView)
    requires
        state.wf(),
        tidy(state),
    ensures
        !state.while_statement().had_error ==> state.while_statement().locals == state.locals,
    decreases state.remaining(), 9int,
{
    let loop_start = state.here();
    let opened = state.consume(TokenType::LeftParen, "Expect '(' after `while`."@);
    consume_grows(state, TokenType::LeftParen, "Expect '(' after `while`."@);
    growth_extends(opened, state);
    expression_grows(opened);
    let tested = opened.expression();
    growth_extends(tested, opened);
    let condition = tested.consume(TokenType::RightParen, "Expect ')' after condition."@);
    consume_grows(tested, TokenType::RightParen, "Expect ')' after condition."@);
    growth_extends(condition, tested);
    let exit_jump = condition.jump_operand();
    let jumped = condition.emit_jump(Opcode::JumpIfFalse.byte());
    emit_jump_grows(condition, Opcode::JumpIfFalse.byte());
    growth_extends(jumped, condition);
    let test = jumped.emit_byte(Opcode::Pop.byte());
    emit_byte_grows(jumped, Opcode::Pop.byte());
    growth_extends(test, jumped);
    statement_grows(test);
    let body = test.statement();
    growth_extends(body, test);
    let looped = body.emit_loop(loop_start);
    emit_loop_grows(body, loop_start);
    growth_extends(looped, body);
    patch_jump_is_sound(looped, exit_jump);
    let patched = looped.patch_jump(exit_jump);
    emit_byte_grows(patched, Opcode::Pop.byte());
    let end = patched.emit_byte(Opcode::Pop.byte());
    growth_extends(end, patched);
    assert(end == state.while_statement());
    if !end.had_error {
        tidy_carries(state, test);
        statement_keeps_the_locals(test);
    }
}

/// Where no error is found, an if statement leaves the locals as it found
/// them.
#[verifier::rlimit(80)]
pub proof fn if_statement_keeps_the_locals(state: ParserView)
    requires
        state.wf(),
        tidy(state),
    ensures
        !state.if_statement().had_error ==> state.if_statement().locals == state.locals,
    decreases state.remaining(), 9int,
{
    let opened = state.consume(TokenType::LeftParen, "Expect '(' after 'if'."@);
    consume_grows(state, TokenType::LeftParen, "Expect '(' after 'if'."@);
    growth_extends(opened, state);
    expression_grows(opened);
    let tested = opened.expression();
    growth_extends(tested, opened);
    let condition = tested.consume(TokenType::RightParen, "Expect ')' after condition."@);
    consume_grows(tested, TokenType::RightParen, "Expect ')' after condition."@);
    growth_extends(condition, tested);
    let then_jump = condition.jump_operand();
    let jumped = condition.emit_jump(Opcode::JumpIfFalse.byte());
    emit_jump_grows(condition, Opcode::JumpIfFalse.byte());
    growth_extends(jumped, condition);
    let test = jumped.emit_byte(Opcode::Pop.byte());
    emit_byte_grows(jumped, Opcode::Pop.byte());
    growth_extends(test, jumped);
    statement_grows(test);
    let then_branch = test.statement();
    growth_extends(then_branch, test);
    let else_jump = then_branch.jump_operand();
    let over = then_branch.emit_jump(Opcode::Jump.byte());
    emit_jump_grows(then_branch, Opcode::Jump.byte());
    growth_extends(over, then_branch);
    patch_jump_is_sound(over, then_jump);
    let patched = over.patch_jump(then_jump);
    let joined = patched.emit_byte(Opcode::Pop.byte());
    emit_byte_grows(patched, Opcode::Pop.byte());
    growth_extends(joined, patched);
    if joined.check(TokenType::Else) {
        advance_grows(joined);
        let moved = joined.advance();
        growth_extends(moved, joined);
        statement_grows(moved);
        let else_branch = moved.statement();
        growth_extends(else_branch, moved);
        patch_jump_is_sound(else_branch, else_jump);
        let end = else_branch.patch_jump(else_jump);
        assert(end == state.if_statement());
        if !end.had_error {
            tidy_carries(state, test);
            statement_keeps_the_locals(test);
            tidy_carries(state, moved);
            statement_keeps_the_locals(moved);
        }
    } else {
        accept_grows(joined, TokenType::Else);
        patch_jump_is_sound(joined, else_jump);
        let end = joined.patch_jump(else_jump);
        assert(end == state.if_statement());
        if !end.had_error {
            tidy_carries(state, test);
            statement_keeps_the_locals(test);
        }
    }
}

/// Where no error is found, a for statement leaves the locals as it found
/// them: the variable of its first clause lives in the scope of the
/// statement and is popped at its end.
#[verifier::rlimit(80)]
pub proof fn for_statement_keeps_the_locals(state: ParserView)
    requires
        state.wf(),
        state.has_slack(),
        tidy(state),
    ensures
        !state.for_statement().had_error ==> state.for_statement().locals == state.locals,
    decreases state.remaining(), 9int,
{
    let scoped = state.begin_scope();
    begin_scope_grows(state);
    growth_extends(scoped, state);
    let opened = scoped.consume(TokenType::LeftParen, "Expect '(' after 'for'."@);
    consume_grows(scoped, TokenType::LeftParen, "Expect '(' after 'for'."@);
    growth_extends(opened, scoped);
    for_initializer_grows(opened);
    let initialized = opened.for_initializer();
    growth_extends(initialized, opened);
    for_condition_grows(initialized);
    let conditioned = initialized.for_condition();
    growth_extends(conditioned, initialized);
    let exit_jump = if initialized.check(TokenType::Semicolon) {
        None
    } else {
        Some(conditioned.here() - 3)
    };
    for_increment_grows(conditioned, initialized.here());
    let incremented = conditioned.for_increment(initialized.here());
    growth_extends(incremented, conditioned);
    let loop_start = if conditioned.check(TokenType::RightParen) {
        initialized.here()
    } else {
        conditioned.here() + 3
    };
    statement_grows(incremented);
    let inner = incremented.statement();
    growth_extends(inner, incremented);
    let looped = inner.emit_loop(loop_start);
    emit_loop_grows(inner, loop_start);
    growth_extends(looped, inner);
    let body = match exit_jump {
        Some(operand) => {
            patch_jump_is_sound(looped, operand);
            let patched = looped.patch_jump(operand);
            emit_byte_grows(patched, Opcode::Pop.byte());
            growth_extends(patched.emit_byte(Opcode::Pop.byte()), patched);
            patched.emit_byte(Opcode::Pop.byte())
        },
        None => looped,
    };
    assert(body == incremented.for_body(loop_start, exit_jump));
    end_scope_grows(body);
    let end = body.end_scope();
    growth_extends(end, body);
    assert(end == state.for_statement());
    if !end.had_error {
        tidy_carries(state, opened);
        for_initializer_scopes(opened);
        declared_is_tidy(opened, initialized);
        tidy_carries(initialized, incremented);
        statement_keeps_the_locals(incremented);
        declaring_transfers(opened, initialized, scoped, body);
        scope_end_restores(state, scoped, body);
    }
}

} // verus!
