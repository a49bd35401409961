//! The rules of the grammar, by induction on what is left to parse: each
//! takes a well-formed state to one that grows from it, at the same depth
//! of scopes.

use vstd::prelude::*;
use crate::chunk::{ChunkView, Opcode};
use crate::compiler::model::{
    binary_code, compiled, infix_of, precedence_of, prefix_of, ParseFn, ParserView, Precedence,
};
use crate::compiler::progress::{
    accept_grows, advance_grows, begin_scope_grows, consume_grows, define_variable_grows,
    emit_byte_grows, emit_bytes_grows, emit_jump_grows, emit_loop_grows, end_compiler_grows,
    end_scope_grows, error_at_grows, grows_from_itself, grows_transitively, growth_extends,
    identifier_constant_grows, literal_grows, number_grows, parse_variable_grows, patch_jump_grows,
    resolve_local_grows, string_grows, synchronize_grows,
};
use crate::scanner::{ScannerView, TokenType, TokenView};

verus! {

/// An expression grows the state it is parsed from, and consumes a token unless
/// the source has ended.
pub proof fn expression_grows(state: ParserView)
    requires
        state.wf(),
    ensures
        state.expression().grows_from(state),
        state.expression().extends(state),
        state.expression().same_locals(state),
        state.current.kind != TokenType::Eof ==> state.expression().advanced(state),
    decreases state.remaining(), 5int,
{
    parse_precedence_grows(state, Precedence::Assignment);
}

/// So does an expression from any precedence on.
pub proof fn parse_precedence_grows(state: ParserView, precedence: Precedence)
    requires
        state.wf(),
    ensures
        state.parse_precedence(precedence).grows_from(state),
        state.parse_precedence(precedence).extends(state),
        state.parse_precedence(precedence).same_locals(state),
        state.current.kind != TokenType::Eof ==> state.parse_precedence(precedence).advanced(
            state,
        ),
    decreases state.remaining(), 4int,
{
    let first = state.advance();
    advance_grows(state);
    growth_extends(first, state);
    match prefix_of(first.previous.kind) {
        None => {
            error_at_grows(first, first.previous, "Expect expression."@);
            grows_transitively(state, first, first.error("Expect expression."@));
        },
        Some(prefix) => {
            let can_assign = precedence.level() <= Precedence::Assignment.level();
            run_grows(first, prefix, can_assign);
            let head = first.run(prefix, can_assign);
            growth_extends(head, first);
            grows_transitively(state, first, head);
            infix_loop_grows(head, precedence, can_assign);
            let whole = head.infix_loop(precedence, can_assign);
            growth_extends(whole, head);
            grows_transitively(state, head, whole);
            if can_assign && whole.check(TokenType::Equal) {
                advance_grows(whole);
                let moved = whole.advance();
                growth_extends(moved, whole);
                grows_transitively(state, whole, moved);
                error_at_grows(moved, moved.previous, "Invalid assignment target"@);
                grows_transitively(state, moved, moved.error("Invalid assignment target"@));
            }
        },
    }
}

/// The infix operators with their operands grow the state.
pub proof fn infix_loop_grows(state: ParserView, precedence: Precedence, can_assign: bool)
    requires
        state.wf(),
    ensures
        state.infix_loop(precedence, can_assign).grows_from(state),
        state.infix_loop(precedence, can_assign).extends(state),
        state.infix_loop(precedence, can_assign).same_locals(state),
    decreases state.remaining(), 3int,
{
    grows_from_itself(state);
    match infix_of(state.current.kind) {
        Some(infix) if precedence.level() <= precedence_of(state.current.kind).level() => {
            let operator = state.advance();
            advance_grows(state);
            growth_extends(operator, state);
            run_grows(operator, infix, can_assign);
            let operand = operator.run(infix, can_assign);
            growth_extends(operand, operator);
            grows_transitively(state, operator, operand);
            infix_loop_grows(operand, precedence, can_assign);
            grows_transitively(state, operand, operand.infix_loop(precedence, can_assign));
        },
        _ => {},
    }
}

/// Each routine grows the state.
pub proof fn run_grows(state: ParserView, routine: ParseFn, can_assign: bool)
    requires
        state.wf(),
    ensures
        state.run(routine, can_assign).grows_from(state),
        state.run(routine, can_assign).extends(state),
        state.run(routine, can_assign).same_locals(state),
    decreases state.remaining(), 10int,
{
    match routine {
        ParseFn::Grouping => grouping_grows(state),
        ParseFn::Unary => unary_grows(state),
        ParseFn::Binary => binary_grows(state),
        ParseFn::Variable => named_variable_grows(state, state.previous, can_assign),
        ParseFn::String => string_grows(state),
        ParseFn::Number => number_grows(state),
        ParseFn::Literal => literal_grows(state),
        ParseFn::And => and_grows(state),
        ParseFn::Or => or_grows(state),
    }
}

/// An expression in parentheses grows the state.
pub proof fn grouping_grows(state: ParserView)
    requires
        state.wf(),
    ensures
        state.grouping().grows_from(state),
        state.grouping().extends(state),
        state.grouping().same_locals(state),
    decreases state.remaining(), 9int,
{
    expression_grows(state);
    let inner = state.expression();
    growth_extends(inner, state);
    consume_grows(inner, TokenType::RightParen, "Expect ')' after expression."@);
    grows_transitively(
        state,
        inner,
        inner.consume(TokenType::RightParen, "Expect ')' after expression."@),
    );
}

/// A unary operator with its operand grows the state.
pub proof fn unary_grows(state: ParserView)
    requires
        state.wf(),
    ensures
        state.unary().grows_from(state),
        state.unary().extends(state),
        state.unary().same_locals(state),
    decreases state.remaining(), 9int,
{
    parse_precedence_grows(state, Precedence::Unary);
    let operand = state.parse_precedence(Precedence::Unary);
    growth_extends(operand, state);
    emit_byte_grows(operand, Opcode::Not.byte());
    emit_byte_grows(operand, Opcode::Negate.byte());
    grows_transitively(state, operand, operand.emit_byte(Opcode::Not.byte()));
    grows_transitively(state, operand, operand.emit_byte(Opcode::Negate.byte()));
}

/// A binary operator with its right operand grows the state.
pub proof fn binary_grows(state: ParserView)
    requires
        state.wf(),
    ensures
        state.binary().grows_from(state),
        state.binary().extends(state),
        state.binary().same_locals(state),
    decreases state.remaining(), 9int,
{
    let operator = state.previous.kind;
    parse_precedence_grows(state, precedence_of(operator).successor());
    let operand = state.parse_precedence(precedence_of(operator).successor());
    growth_extends(operand, state);
    emit_bytes_grows(operand, binary_code(operator));
    grows_transitively(state, operand, operand.emit_bytes(binary_code(operator)));
}

/// The right operand of `and` grows the state; the jump patched at its end
/// was written since it began.
pub proof fn and_grows(state: ParserView)
    requires
        state.wf(),
    ensures
        state.and_().grows_from(state),
        state.and_().extends(state),
        state.and_().same_locals(state),
    decreases state.remaining(), 9int,
{
    let jumped = state.emit_jump(Opcode::JumpIfFalse.byte());
    emit_jump_grows(state, Opcode::JumpIfFalse.byte());
    growth_extends(jumped, state);
    let popped = jumped.emit_byte(Opcode::Pop.byte());
    emit_byte_grows(jumped, Opcode::Pop.byte());
    growth_extends(popped, jumped);
    grows_transitively(state, jumped, popped);
    parse_precedence_grows(popped, Precedence::And);
    let right = popped.parse_precedence(Precedence::And);
    growth_extends(right, popped);
    grows_transitively(state, popped, right);
    patch_jump_grows(right, state.jump_operand(), state);
}

/// The right operand of `or` grows the state; both jumps patched were written
/// since it began.
pub proof fn or_grows(state: ParserView)
    requires
        state.wf(),
    ensures
        state.or_().grows_from(state),
        state.or_().extends(state),
        state.or_().same_locals(state),
    decreases state.remaining(), 9int,
{
    let else_jump = state.jump_operand();
    let first = state.emit_jump(Opcode::JumpIfFalse.byte());
    emit_jump_grows(state, Opcode::JumpIfFalse.byte());
    growth_extends(first, state);
    let end_jump = first.jump_operand();
    let second = first.emit_jump(Opcode::Jump.byte());
    emit_jump_grows(first, Opcode::Jump.byte());
    growth_extends(second, first);
    grows_transitively(state, first, second);
    patch_jump_grows(second, else_jump, state);
    let patched = second.patch_jump(else_jump);
    growth_extends(patched, state);
    let left = patched.emit_byte(Opcode::Pop.byte());
    emit_byte_grows(patched, Opcode::Pop.byte());
    growth_extends(left, patched);
    grows_transitively(state, patched, left);
    parse_precedence_grows(left, Precedence::Or);
    let right = left.parse_precedence(Precedence::Or);
    growth_extends(right, left);
    grows_transitively(state, left, right);
    patch_jump_grows(right, end_jump, state);
}

/// A use of a variable grows the state.
pub proof fn named_variable_grows(state: ParserView, name: TokenView, can_assign: bool)
    requires
        state.wf(),
    ensures
        state.named_variable(name, can_assign).grows_from(state),
        state.named_variable(name, can_assign).extends(state),
        state.named_variable(name, can_assign).same_locals(state),
    decreases state.remaining(), 9int,
{
    let local = state.local_slot(name);
    let looked = state.resolve_local(name);
    resolve_local_grows(state, name);
    growth_extends(looked, state);
    identifier_constant_grows(looked, name);
    let resolved = match local {
        Some(_) => looked,
        None => looked.identifier_constant(name),
    };
    grows_transitively(state, looked, looked.identifier_constant(name));
    growth_extends(resolved, state);
    let (arg, get_op, set_op) = match local {
        Some(slot) => (slot, Opcode::GetLocal, Opcode::SetLocal),
        None => (looked.identifier_id(name), Opcode::GetGlobal, Opcode::SetGlobal),
    };
    if can_assign && resolved.check(TokenType::Equal) {
        advance_grows(resolved);
        let moved = resolved.advance();
        growth_extends(moved, resolved);
        grows_transitively(state, resolved, moved);
        expression_grows(moved);
        let value = moved.expression();
        growth_extends(value, moved);
        grows_transitively(state, moved, value);
        emit_bytes_grows(value, seq![set_op.byte(), arg]);
        grows_transitively(state, value, value.emit_bytes(seq![set_op.byte(), arg]));
    } else {
        emit_bytes_grows(resolved, seq![get_op.byte(), arg]);
        grows_transitively(state, resolved, resolved.emit_bytes(seq![get_op.byte(), arg]));
    }
}

/// A block grows the state and ends at the depth at which it began.
pub proof fn block_grows(state: ParserView)
    requires
        state.wf(),
    ensures
        state.block().grows_from(state),
        state.block().extends(state),
        state.block().scope_depth == state.scope_depth,
    decreases state.remaining(), 10int,
{
    block_items_grows(state);
    let items = state.block_items();
    growth_extends(items, state);
    consume_grows(items, TokenType::RightBrace, "Expect '}' after block."@);
    grows_transitively(
        state,
        items,
        items.consume(TokenType::RightBrace, "Expect '}' after block."@),
    );
}

/// The declarations of a block grow the state.
pub proof fn block_items_grows(state: ParserView)
    requires
        state.wf(),
    ensures
        state.block_items().grows_from(state),
        state.block_items().extends(state),
        state.block_items().scope_depth == state.scope_depth,
    decreases state.remaining(), 9int,
{
    reveal(ParserView::declaration);
    grows_from_itself(state);
    if !state.check(TokenType::RightBrace) && !state.check(TokenType::Eof) {
        declaration_grows(state);
        let item = state.declaration();
        growth_extends(item, state);
        block_items_grows(item);
        grows_transitively(state, item, item.block_items());
    }
}

/// A variable declaration grows the state.
pub proof fn var_declaration_grows(state: ParserView)
    requires
        state.wf(),
    ensures
        state.var_declaration().grows_from(state),
        state.var_declaration().extends(state),
        state.var_declaration().scope_depth == state.scope_depth,
    decreases state.remaining(), 7int,
{
    let global = state.variable_id("Expect variable name."@);
    let named = state.parse_variable("Expect variable name."@);
    parse_variable_grows(state, "Expect variable name."@);
    growth_extends(named, state);
    let valued = if named.check(TokenType::Equal) {
        advance_grows(named);
        let moved = named.advance();
        growth_extends(moved, named);
        grows_transitively(state, named, moved);
        expression_grows(moved);
        grows_transitively(state, moved, moved.expression());
        moved.expression()
    } else {
        emit_byte_grows(named, Opcode::Nil.byte());
        grows_transitively(state, named, named.emit_byte(Opcode::Nil.byte()));
        named.emit_byte(Opcode::Nil.byte())
    };
    growth_extends(valued, state);
    let ended = valued.consume(TokenType::Semicolon, "Expect ';' after variable declaration."@);
    consume_grows(valued, TokenType::Semicolon, "Expect ';' after variable declaration."@);
    growth_extends(ended, valued);
    grows_transitively(state, valued, ended);
    define_variable_grows(ended, global);
    grows_transitively(state, ended, ended.define_variable(global));
}

/// A print statement grows the state.
pub proof fn print_statement_grows(state: ParserView)
    requires
        state.wf(),
    ensures
        state.print_statement().grows_from(state),
        state.print_statement().extends(state),
        state.print_statement().scope_depth == state.scope_depth,
    decreases state.remaining(), 9int,
{
    expression_grows(state);
    let value = state.expression();
    growth_extends(value, state);
    let ended = value.consume(TokenType::Semicolon, "Expect ';' after value."@);
    consume_grows(value, TokenType::Semicolon, "Expect ';' after value."@);
    growth_extends(ended, value);
    grows_transitively(state, value, ended);
    emit_byte_grows(ended, Opcode::Print.byte());
    grows_transitively(state, ended, ended.emit_byte(Opcode::Print.byte()));
}

/// An expression statement grows the state, and consumes a token unless the
/// source has ended.
pub proof fn expression_statement_grows(state: ParserView)
    requires
        state.wf(),
    ensures
        state.expression_statement().grows_from(state),
        state.expression_statement().extends(state),
        state.expression_statement().same_locals(state),
        state.current.kind != TokenType::Eof ==> state.expression_statement().advanced(state),
    decreases state.remaining(), 6int,
{
    expression_grows(state);
    let value = state.expression();
    growth_extends(value, state);
    let ended = value.consume(TokenType::Semicolon, "Expect ';' after value."@);
    consume_grows(value, TokenType::Semicolon, "Expect ';' after value."@);
    growth_extends(ended, value);
    grows_transitively(state, value, ended);
    emit_byte_grows(ended, Opcode::Pop.byte());
    grows_transitively(state, ended, ended.emit_byte(Opcode::Pop.byte()));
}

/// A while statement grows the state; the exit jump patched at its end was
/// written since it began.
pub proof fn while_statement_grows(state: ParserView)
    requires
        state.wf(),
    ensures
        state.while_statement().grows_from(state),
        state.while_statement().extends(state),
        state.while_statement().scope_depth == state.scope_depth,
    decreases state.remaining(), 9int,
{
    let loop_start = state.here();
    let opened = state.consume(TokenType::LeftParen, "Expect '(' after `while`."@);
    consume_grows(state, TokenType::LeftParen, "Expect '(' after `while`."@);
    growth_extends(opened, state);
    expression_grows(opened);
    let tested = opened.expression();
    growth_extends(tested, opened);
    grows_transitively(state, opened, tested);
    let condition = tested.consume(TokenType::RightParen, "Expect ')' after condition."@);
    consume_grows(tested, TokenType::RightParen, "Expect ')' after condition."@);
    growth_extends(condition, tested);
    grows_transitively(state, tested, condition);
    let exit_jump = condition.jump_operand();
    let jumped = condition.emit_jump(Opcode::JumpIfFalse.byte());
    emit_jump_grows(condition, Opcode::JumpIfFalse.byte());
    growth_extends(jumped, condition);
    grows_transitively(state, condition, jumped);
    let test = jumped.emit_byte(Opcode::Pop.byte());
    emit_byte_grows(jumped, Opcode::Pop.byte());
    growth_extends(test, jumped);
    grows_transitively(state, jumped, test);
    statement_grows(test);
    let body = test.statement();
    growth_extends(body, test);
    grows_transitively(state, test, body);
    let looped = body.emit_loop(loop_start);
    emit_loop_grows(body, loop_start);
    growth_extends(looped, body);
    grows_transitively(state, body, looped);
    patch_jump_grows(looped, exit_jump, state);
    let patched = looped.patch_jump(exit_jump);
    growth_extends(patched, state);
    emit_byte_grows(patched, Opcode::Pop.byte());
    grows_transitively(state, patched, patched.emit_byte(Opcode::Pop.byte()));
}

/// An if statement grows the state; both jumps patched were written since it
/// began.
#[verifier::rlimit(60)]
pub proof fn if_statement_grows(state: ParserView)
    requires
        state.wf(),
    ensures
        state.if_statement().grows_from(state),
        state.if_statement().extends(state),
        state.if_statement().scope_depth == state.scope_depth,
    decreases state.remaining(), 9int,
{
    let opened = state.consume(TokenType::LeftParen, "Expect '(' after 'if'."@);
    consume_grows(state, TokenType::LeftParen, "Expect '(' after 'if'."@);
    growth_extends(opened, state);
    expression_grows(opened);
    let tested = opened.expression();
    growth_extends(tested, opened);
    grows_transitively(state, opened, tested);
    let condition = tested.consume(TokenType::RightParen, "Expect ')' after condition."@);
    consume_grows(tested, TokenType::RightParen, "Expect ')' after condition."@);
    growth_extends(condition, tested);
    grows_transitively(state, tested, condition);
    let then_jump = condition.jump_operand();
    let jumped = condition.emit_jump(Opcode::JumpIfFalse.byte());
    emit_jump_grows(condition, Opcode::JumpIfFalse.byte());
    growth_extends(jumped, condition);
    grows_transitively(state, condition, jumped);
    let test = jumped.emit_byte(Opcode::Pop.byte());
    emit_byte_grows(jumped, Opcode::Pop.byte());
    growth_extends(test, jumped);
    grows_transitively(state, jumped, test);
    statement_grows(test);
    let then_branch = test.statement();
    growth_extends(then_branch, test);
    grows_transitively(state, test, then_branch);
    let else_jump = then_branch.jump_operand();
    let over = then_branch.emit_jump(Opcode::Jump.byte());
    emit_jump_grows(then_branch, Opcode::Jump.byte());
    growth_extends(over, then_branch);
    grows_transitively(state, then_branch, over);
    patch_jump_grows(over, then_jump, state);
    let patched = over.patch_jump(then_jump);
    growth_extends(patched, state);
    let joined = patched.emit_byte(Opcode::Pop.byte());
    emit_byte_grows(patched, Opcode::Pop.byte());
    growth_extends(joined, patched);
    grows_transitively(state, patched, joined);
    accept_grows(joined, TokenType::Else);
    let else_branch = if joined.check(TokenType::Else) {
        advance_grows(joined);
        let moved = joined.advance();
        growth_extends(moved, joined);
        grows_transitively(state, joined, moved);
        statement_grows(moved);
        grows_transitively(state, moved, moved.statement());
        moved.statement()
    } else {
        joined
    };
    growth_extends(else_branch, state);
    patch_jump_grows(else_branch, else_jump, state);
}

/// The first clause of a for statement grows the state.
pub proof fn for_initializer_grows(state: ParserView)
    requires
        state.wf(),
    ensures
        state.for_initializer().grows_from(state),
        state.for_initializer().extends(state),
        state.for_initializer().scope_depth == state.scope_depth,
    decreases state.remaining(), 8int,
{
    advance_grows(state);
    let moved = state.advance();
    growth_extends(moved, state);
    if state.check(TokenType::Semicolon) {
    } else if state.check(TokenType::Var) {
        var_declaration_grows(moved);
        grows_transitively(state, moved, moved.var_declaration());
    } else {
        expression_statement_grows(state);
    }
}

/// The second clause of a for statement grows the state; a condition writes
/// at least its exit jump and a `Pop`.
pub proof fn for_condition_grows(state: ParserView)
    requires
        state.wf(),
    ensures
        state.for_condition().grows_from(state),
        state.for_condition().extends(state),
        state.for_condition().same_locals(state),
        !state.check(TokenType::Semicolon) ==> state.here() + 4 <= state.for_condition().here(),
    decreases state.remaining(), 8int,
{
    if state.check(TokenType::Semicolon) {
        advance_grows(state);
    } else {
        expression_grows(state);
        let tested = state.expression();
        growth_extends(tested, state);
        let condition = tested.consume(
            TokenType::Semicolon,
            "Expect ';' after loop condition."@,
        );
        consume_grows(tested, TokenType::Semicolon, "Expect ';' after loop condition."@);
        growth_extends(condition, tested);
        grows_transitively(state, tested, condition);
        let jumped = condition.emit_jump(Opcode::JumpIfFalse.byte());
        emit_jump_grows(condition, Opcode::JumpIfFalse.byte());
        growth_extends(jumped, condition);
        grows_transitively(state, condition, jumped);
        emit_byte_grows(jumped, Opcode::Pop.byte());
        grows_transitively(state, jumped, jumped.emit_byte(Opcode::Pop.byte()));
    }
}

/// The third clause of a for statement grows the state.
pub proof fn for_increment_grows(state: ParserView, condition_start: int)
    requires
        state.wf(),
    ensures
        state.for_increment(condition_start).grows_from(state),
        state.for_increment(condition_start).extends(state),
        state.for_increment(condition_start).same_locals(state),
    decreases state.remaining(), 8int,
{
    if state.check(TokenType::RightParen) {
        advance_grows(state);
    } else {
        let body_jump = state.jump_operand();
        let jumped = state.emit_jump(Opcode::Jump.byte());
        emit_jump_grows(state, Opcode::Jump.byte());
        growth_extends(jumped, state);
        expression_grows(jumped);
        let value = jumped.expression();
        growth_extends(value, jumped);
        grows_transitively(state, jumped, value);
        let popped = value.emit_byte(Opcode::Pop.byte());
        emit_byte_grows(value, Opcode::Pop.byte());
        growth_extends(popped, value);
        grows_transitively(state, value, popped);
        let closed = popped.consume(TokenType::RightParen, "Expect ')' after for clauses."@);
        consume_grows(popped, TokenType::RightParen, "Expect ')' after for clauses."@);
        growth_extends(closed, popped);
        grows_transitively(state, popped, closed);
        let looped = closed.emit_loop(condition_start);
        emit_loop_grows(closed, condition_start);
        growth_extends(looped, closed);
        grows_transitively(state, closed, looped);
        patch_jump_grows(looped, body_jump, state);
    }
}

/// The body of a for statement may patch the exit jump, which was written
/// before the body began: what it keeps is what `base` held.
pub proof fn for_body_grows(
    state: ParserView,
    loop_start: int,
    exit_jump: Option<int>,
    base: ParserView,
)
    requires
        state.grows_from(base),
        exit_jump is Some ==> base.here() <= exit_jump->0 && exit_jump->0 + 2 <= state.here(),
    ensures
        state.for_body(loop_start, exit_jump).grows_from(base),
        state.for_body(loop_start, exit_jump).extends(state),
        state.for_body(loop_start, exit_jump).scope_depth == state.scope_depth,
    decreases state.remaining(), 8int,
{
    growth_extends(state, base);
    statement_grows(state);
    let body = state.statement();
    growth_extends(body, state);
    grows_transitively(base, state, body);
    let looped = body.emit_loop(loop_start);
    emit_loop_grows(body, loop_start);
    growth_extends(looped, body);
    grows_transitively(base, body, looped);
    match exit_jump {
        Some(operand) => {
            patch_jump_grows(looped, operand, base);
            let patched = looped.patch_jump(operand);
            growth_extends(patched, base);
            emit_byte_grows(patched, Opcode::Pop.byte());
            grows_transitively(base, patched, patched.emit_byte(Opcode::Pop.byte()));
        },
        None => {},
    }
}

/// A for statement, after a token that leaves room for its scope, grows the
/// state and ends at the depth at which it began.
pub proof fn for_statement_grows(state: ParserView)
    requires
        state.wf(),
        state.has_slack(),
    ensures
        state.for_statement().grows_from(state),
        state.for_statement().extends(state),
        state.for_statement().scope_depth == state.scope_depth,
    decreases state.remaining(), 9int,
{
    let scoped = state.begin_scope();
    begin_scope_grows(state);
    growth_extends(scoped, state);
    let opened = scoped.consume(TokenType::LeftParen, "Expect '(' after 'for'."@);
    consume_grows(scoped, TokenType::LeftParen, "Expect '(' after 'for'."@);
    growth_extends(opened, scoped);
    grows_transitively(state, scoped, opened);
    for_initializer_grows(opened);
    let initialized = opened.for_initializer();
    growth_extends(initialized, opened);
    grows_transitively(state, opened, initialized);
    for_condition_grows(initialized);
    let conditioned = initialized.for_condition();
    growth_extends(conditioned, initialized);
    grows_transitively(state, initialized, conditioned);
    let exit_jump = if initialized.check(TokenType::Semicolon) {
        None
    } else {
        Some(conditioned.here() - 3)
    };
    for_increment_grows(conditioned, initialized.here());
    let incremented = conditioned.for_increment(initialized.here());
    growth_extends(incremented, conditioned);
    grows_transitively(state, conditioned, incremented);
    let loop_start = if conditioned.check(TokenType::RightParen) {
        initialized.here()
    } else {
        conditioned.here() + 3
    };
    for_body_grows(incremented, loop_start, exit_jump, state);
    let body = incremented.for_body(loop_start, exit_jump);
    growth_extends(body, state);
    end_scope_grows(body);
    grows_transitively(state, body, body.end_scope());
}

/// A declaration grows the state, and consumes a token unless the source has
/// ended.
pub proof fn declaration_grows(state: ParserView)
    requires
        state.wf(),
    ensures
        state.declaration().grows_from(state),
        state.declaration().extends(state),
        state.declaration().scope_depth == state.scope_depth,
        state.current.kind != TokenType::Eof ==> state.declaration().advanced(state),
    decreases state.remaining(), 8int,
{
    reveal(ParserView::declaration);
    let parsed = if state.check(TokenType::Var) {
        advance_grows(state);
        let moved = state.advance();
        growth_extends(moved, state);
        var_declaration_grows(moved);
        grows_transitively(state, moved, moved.var_declaration());
        moved.var_declaration()
    } else {
        statement_grows(state);
        state.statement()
    };
    growth_extends(parsed, state);
    if parsed.panic_mode {
        synchronize_grows(parsed);
        grows_transitively(state, parsed, parsed.synchronize());
    }
}

/// A statement grows the state, and consumes a token unless the source has
/// ended.
#[verifier::rlimit(60)]
pub proof fn statement_grows(state: ParserView)
    requires
        state.wf(),
    ensures
        state.statement().grows_from(state),
        state.statement().extends(state),
        state.statement().scope_depth == state.scope_depth,
        state.current.kind != TokenType::Eof ==> state.statement().advanced(state),
    decreases state.remaining(), 7int,
{
    let kind = state.current.kind;
    if kind == TokenType::Print || kind == TokenType::For || kind == TokenType::If || kind
        == TokenType::While || kind == TokenType::LeftBrace {
        advance_grows(state);
        let inside = state.advance();
        growth_extends(inside, state);
        if kind == TokenType::Print {
            print_statement_grows(inside);
            grows_transitively(state, inside, inside.print_statement());
        } else if kind == TokenType::For {
            for_statement_grows(inside);
            grows_transitively(state, inside, inside.for_statement());
        } else if kind == TokenType::If {
            if_statement_grows(inside);
            grows_transitively(state, inside, inside.if_statement());
        } else if kind == TokenType::While {
            while_statement_grows(inside);
            grows_transitively(state, inside, inside.while_statement());
        } else {
            let scoped = inside.begin_scope();
            begin_scope_grows(inside);
            growth_extends(scoped, inside);
            grows_transitively(state, inside, scoped);
            block_grows(scoped);
            let body = scoped.block();
            growth_extends(body, scoped);
            grows_transitively(state, scoped, body);
            end_scope_grows(body);
            grows_transitively(state, body, body.end_scope());
        }
    } else {
        expression_statement_grows(state);
    }
}

proof fn program_grows(state: ParserView)
    requires
        state.wf(),
    ensures
        state.program().grows_from(state),
        state.program().extends(state),
        state.program().scope_depth == state.scope_depth,
    decreases state.remaining(),
{
    if state.check(TokenType::Eof) {
        advance_grows(state);
    } else {
        declaration_grows(state);
        let item = state.declaration();
        growth_extends(item, state);
        program_grows(item);
        grows_transitively(state, item, item.program());
    }
}

/// Whatever the source and the literals: compiling onto a well-formed chunk
/// gives a well-formed chunk, every byte with its line, that still holds at
/// their places the code, the lines and the constants that it held before.
/// The compiler ends in the global scope, and it has found an error if it
/// has reported one.
pub proof fn compiling_keeps_the_chunk(source: Seq<u8>, literals: Seq<u64>, chunk: ChunkView)
    requires
        ScannerView::begin(source).wf(),
        chunk.wf(),
    ensures
        ({
            let end = compiled(source, literals, chunk);
            &&& end.chunk.wf()
            &&& end.chunk.code.len() > chunk.code.len()
            &&& end.chunk.code.take(chunk.code.len() as int) == chunk.code
            &&& end.chunk.lines.take(chunk.code.len() as int) == chunk.lines
            &&& end.chunk.constants.len() >= chunk.constants.len()
            &&& end.chunk.constants.take(chunk.constants.len() as int) == chunk.constants
            &&& end.chunk.code.last() == Opcode::Return.byte()
            &&& end.scope_depth == 0
        }),
{
    let begin = ParserView::begin(source, literals, chunk);
    assert(begin.wf()) by {
        reveal(ParserView::wf);
    }
    advance_grows(begin);
    let first = begin.advance();
    growth_extends(first, begin);
    program_grows(first);
    let parsed = first.program();
    growth_extends(parsed, first);
    grows_transitively(begin, first, parsed);
    end_compiler_grows(parsed);
    let end = parsed.end_compiler();
    grows_transitively(begin, parsed, end);
    reveal(ParserView::grows_from);
    reveal(ParserView::wf);
}

} // verus!
