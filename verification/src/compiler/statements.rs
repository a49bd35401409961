//! The statement rules.

use vstd::prelude::*;
use crate::chunk::Opcode;
use crate::compiler::model::ParserView;
use crate::compiler::parser::Parser;
use crate::scanner::TokenType;

verus! {

impl<'s, 'l> Parser<'s, 'l> {
    /// Computes [`ParserView::var_declaration`].
    pub(crate) fn var_declaration(&mut self)
        requires
            old(self)@.wf(),
        ensures
            final(self)@.wf(),
            final(self)@ == old(self)@.var_declaration(),
            final(self)@.extends(old(self)@),
            final(self)@.scope_depth == old(self)@.scope_depth,
        decreases old(self)@.remaining(), 7int,
    {
        let global = self.parse_variable("Expect variable name.");
        if self.match_(TokenType::Equal) {
            self.expression();
        } else {
            self.emit_byte(Opcode::Nil.as_u8());
        }
        self.consume(TokenType::Semicolon, "Expect ';' after variable declaration.");
        self.define_variable(global.unwrap_or(0));
    }

    /// Computes [`ParserView::print_statement`].
    pub(crate) fn print_statement(&mut self)
        requires
            old(self)@.wf(),
        ensures
            final(self)@.wf(),
            final(self)@ == old(self)@.print_statement(),
            final(self)@.extends(old(self)@),
            final(self)@.scope_depth == old(self)@.scope_depth,
        decreases old(self)@.remaining(), 9int,
    {
        self.expression();
        self.consume(TokenType::Semicolon, "Expect ';' after value.");
        self.emit_byte(Opcode::Print.as_u8());
    }

    /// Computes [`ParserView::while_statement`].
    pub(crate) fn while_statement(&mut self)
        requires
            old(self)@.wf(),
        ensures
            final(self)@.wf(),
            final(self)@ == old(self)@.while_statement(),
            final(self)@.extends(old(self)@),
            final(self)@.scope_depth == old(self)@.scope_depth,
        decreases old(self)@.remaining(), 9int,
    {
        let loop_start = self.chunk.len();
        self.consume(TokenType::LeftParen, "Expect '(' after `while`.");
        self.expression();
        self.consume(TokenType::RightParen, "Expect ')' after condition.");
        let exit_jump = self.emit_jump(Opcode::JumpIfFalse.as_u8());
        self.emit_byte(Opcode::Pop.as_u8());
        self.statement();
        self.emit_loop(loop_start);
        self.patch_jump(exit_jump);
        self.emit_byte(Opcode::Pop.as_u8());
    }

    /// Computes [`ParserView::synchronize`].
    pub(crate) fn synchronize(&mut self)
        requires
            old(self)@.wf(),
        ensures
            final(self)@.wf(),
            final(self)@ == old(self)@.synchronize(),
            final(self)@.extends(old(self)@),
            final(self)@.same_scopes(old(self)@),
    {
        reveal(ParserView::synchronize);
        reveal(ParserView::skip_to_statement);
        reveal(ParserView::wf);
        self.panic_mode = false;
        let ghost calm = self@;
        loop
            invariant_except_break
                self@.skip_to_statement() == calm.skip_to_statement(),
            invariant
                self@.wf(),
                calm == (ParserView { panic_mode: false, ..old(self)@ }),
                self@.extends(old(self)@),
                self@.same_scopes(old(self)@),
            ensures
                self@ == calm.skip_to_statement(),
            decreases self@.remaining(),
        {
            reveal(ParserView::skip_to_statement);
            reveal(ParserView::wf);
            if self.check(TokenType::Eof) {
                break ;
            }
            if self.previous.kind == TokenType::Semicolon {
                break ;
            }
            match self.current.kind {
                TokenType::Class
                | TokenType::Fun
                | TokenType::Var
                | TokenType::For
                | TokenType::If
                | TokenType::While
                | TokenType::Print
                | TokenType::Return => {
                    break ;
                },
                _ => {},
            }
            self.advance();
        }
    }

    /// Computes [`ParserView::expression_statement`].
    pub(crate) fn expression_statement(&mut self)
        requires
            old(self)@.wf(),
        ensures
            final(self)@.wf(),
            final(self)@ == old(self)@.expression_statement(),
            final(self)@.extends(old(self)@),
            final(self)@.same_scopes(old(self)@),
            old(self)@.current.kind != TokenType::Eof ==> final(self)@.advanced(old(self)@),
        decreases old(self)@.remaining(), 6int,
    {
        self.expression();
        self.consume(TokenType::Semicolon, "Expect ';' after value.");
        self.emit_byte(Opcode::Pop.as_u8());
    }

    /// Computes [`ParserView::for_initializer`].
    pub(crate) fn for_initializer(&mut self)
        requires
            old(self)@.wf(),
        ensures
            final(self)@.wf(),
            final(self)@ == old(self)@.for_initializer(),
            final(self)@.extends(old(self)@),
            final(self)@.scope_depth == old(self)@.scope_depth,
        decreases old(self)@.remaining(), 8int,
    {
        if self.match_(TokenType::Semicolon) {
            // No initializer.
        } else if self.match_(TokenType::Var) {
            self.var_declaration();
        } else {
            self.expression_statement();
        }
    }

    /// Returns where the operand of the exit jump stands, if the loop has a
    /// condition.
    pub(crate) fn for_condition(&mut self) -> (exit_jump: Option<usize>)
        requires
            old(self)@.wf(),
        ensures
            final(self)@.wf(),
            final(self)@ == old(self)@.for_condition(),
            final(self)@.extends(old(self)@),
            final(self)@.scope_depth == old(self)@.scope_depth,
            match exit_jump {
                Some(operand) => !old(self)@.check(TokenType::Semicolon) && operand
                    == final(self)@.here() - 3,
                None => old(self)@.check(TokenType::Semicolon),
            },
        decreases old(self)@.remaining(), 8int,
    {
        if self.match_(TokenType::Semicolon) {
            return None;
        }
        self.expression();
        self.consume(TokenType::Semicolon, "Expect ';' after loop condition.");
        let exit_jump = self.emit_jump(Opcode::JumpIfFalse.as_u8());
        self.emit_byte(Opcode::Pop.as_u8());
        Some(exit_jump)
    }

    /// Returns where the body loops back to: the increment if there is one,
    /// else `condition_start`.
    pub(crate) fn for_increment(&mut self, condition_start: usize) -> (loop_start: usize)
        requires
            old(self)@.wf(),
            condition_start <= old(self)@.here(),
        ensures
            final(self)@.wf(),
            final(self)@ == old(self)@.for_increment(condition_start as int),
            final(self)@.extends(old(self)@),
            final(self)@.scope_depth == old(self)@.scope_depth,
            loop_start == if old(self)@.check(TokenType::RightParen) {
                condition_start as int
            } else {
                old(self)@.here() + 3
            },
            loop_start <= final(self)@.here(),
        decreases old(self)@.remaining(), 8int,
    {
        if self.match_(TokenType::RightParen) {
            return condition_start;
        }
        let body_jump = self.emit_jump(Opcode::Jump.as_u8());
        let increment_start = self.chunk.len();
        self.expression();
        self.emit_byte(Opcode::Pop.as_u8());
        self.consume(TokenType::RightParen, "Expect ')' after for clauses.");
        self.emit_loop(condition_start);
        self.patch_jump(body_jump);
        increment_start
    }

    /// Computes [`ParserView::for_body`].
    pub(crate) fn for_body(&mut self, loop_start: usize, exit_jump: Option<usize>)
        requires
            old(self)@.wf(),
            loop_start <= old(self)@.here(),
            exit_jump is Some ==> exit_jump->0 + 2 <= old(self)@.here(),
        ensures
            final(self)@.wf(),
            final(self)@ == old(self)@.for_body(
                loop_start as int,
                match exit_jump {
                    Some(operand) => Some(operand as int),
                    None => None,
                },
            ),
            final(self)@.extends(old(self)@),
            final(self)@.scope_depth == old(self)@.scope_depth,
        decreases old(self)@.remaining(), 8int,
    {
        self.statement();
        self.emit_loop(loop_start);
        if let Some(exit_jump) = exit_jump {
            self.patch_jump(exit_jump);
            self.emit_byte(Opcode::Pop.as_u8());
        }
    }

    /// Computes [`ParserView::for_statement`].
    pub(crate) fn for_statement(&mut self)
        requires
            old(self)@.wf(),
            old(self)@.has_slack(),
        ensures
            final(self)@.wf(),
            final(self)@ == old(self)@.for_statement(),
            final(self)@.extends(old(self)@),
            final(self)@.scope_depth == old(self)@.scope_depth,
        decreases old(self)@.remaining(), 9int,
    {
        self.begin_scope();
        self.consume(TokenType::LeftParen, "Expect '(' after 'for'.");
        self.for_initializer();
        let condition_start = self.chunk.len();
        let exit_jump = self.for_condition();
        let loop_start = self.for_increment(condition_start);
        self.for_body(loop_start, exit_jump);
        self.end_scope();
    }

    /// Computes [`ParserView::if_statement`].
    pub(crate) fn if_statement(&mut self)
        requires
            old(self)@.wf(),
        ensures
            final(self)@.wf(),
            final(self)@ == old(self)@.if_statement(),
            final(self)@.extends(old(self)@),
            final(self)@.scope_depth == old(self)@.scope_depth,
        decreases old(self)@.remaining(), 9int,
    {
        self.consume(TokenType::LeftParen, "Expect '(' after 'if'.");
        self.expression();
        self.consume(TokenType::RightParen, "Expect ')' after condition.");
        let then_jump = self.emit_jump(Opcode::JumpIfFalse.as_u8());
        self.emit_byte(Opcode::Pop.as_u8());
        self.statement();
        let else_jump = self.emit_jump(Opcode::Jump.as_u8());
        self.patch_jump(then_jump);
        self.emit_byte(Opcode::Pop.as_u8());
        if self.match_(TokenType::Else) {
            self.statement();
        }
        self.patch_jump(else_jump);
    }

}

} // verus!
