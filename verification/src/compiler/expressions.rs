//! The expression rules: a Pratt parser.

use vstd::prelude::*;
use crate::chunk::Opcode;
use crate::compiler::model::{binary_code, rule, ParseFn, ParseRule, ParserView, Precedence};
use crate::compiler::parser::Parser;
use crate::scanner::{Token, TokenType};

verus! {

impl<'s, 'l> Parser<'s, 'l> {
    /// Emits the instructions of a binary operator.
    pub(crate) fn emit_operator(&mut self, operator: TokenType)
        requires
            old(self)@.wf(),
        ensures
            final(self)@.wf(),
            final(self)@ == old(self)@.emit_bytes(binary_code(operator)),
            final(self)@.extends(old(self)@),
            final(self)@.same_scopes(old(self)@),
    {
        let ghost start = self@;
        proof {
            reveal(ParserView::wf);
            reveal_with_fuel(ParserView::emit_bytes, 2);
            assert forall|a: u8| #[trigger] start.emit_bytes(seq![a]) == start.emit_byte(a) by {
                assert(seq![a].drop_last() =~= Seq::<u8>::empty());
            }
            assert(start.emit_bytes(Seq::<u8>::empty()) == start);
        }
        match operator {
            TokenType::BangEqual => self.emit_pair(Opcode::Equal.as_u8(), Opcode::Not.as_u8()),
            TokenType::EqualEqual => self.emit_byte(Opcode::Equal.as_u8()),
            TokenType::Greater => self.emit_byte(Opcode::Greater.as_u8()),
            TokenType::GreaterEqual => self.emit_pair(Opcode::Less.as_u8(), Opcode::Not.as_u8()),
            TokenType::Less => self.emit_byte(Opcode::Less.as_u8()),
            TokenType::LessEqual => self.emit_pair(Opcode::Greater.as_u8(), Opcode::Not.as_u8()),
            TokenType::Plus => self.emit_byte(Opcode::Add.as_u8()),
            TokenType::Minus => self.emit_byte(Opcode::Subtract.as_u8()),
            TokenType::Star => self.emit_byte(Opcode::Multiply.as_u8()),
            TokenType::Slash => self.emit_byte(Opcode::Divide.as_u8()),
            _ => {},
        }
    }

    /// Computes [`ParserView::or_`].
    pub(crate) fn or_(&mut self)
        requires
            old(self)@.wf(),
        ensures
            final(self)@.wf(),
            final(self)@ == old(self)@.or_(),
            final(self)@.extends(old(self)@),
            final(self)@.same_scopes(old(self)@),
        decreases old(self)@.remaining(), 9int,
    {
        let else_jump = self.emit_jump(Opcode::JumpIfFalse.as_u8());
        let end_jump = self.emit_jump(Opcode::Jump.as_u8());
        self.patch_jump(else_jump);
        self.emit_byte(Opcode::Pop.as_u8());
        self.parse_precedence(Precedence::Or);
        self.patch_jump(end_jump);
    }

    /// Computes [`ParserView::and_`].
    pub(crate) fn and_(&mut self)
        requires
            old(self)@.wf(),
        ensures
            final(self)@.wf(),
            final(self)@ == old(self)@.and_(),
            final(self)@.extends(old(self)@),
            final(self)@.same_scopes(old(self)@),
        decreases old(self)@.remaining(), 9int,
    {
        let end_jump = self.emit_jump(Opcode::JumpIfFalse.as_u8());
        self.emit_byte(Opcode::Pop.as_u8());
        self.parse_precedence(Precedence::And);
        self.patch_jump(end_jump);
    }

    /// Computes [`ParserView::named_variable`].
    pub(crate) fn named_variable(&mut self, name: Token<'s>, can_assign: bool)
        requires
            old(self)@.wf(),
        ensures
            final(self)@.wf(),
            final(self)@ == old(self)@.named_variable(name@, can_assign),
            final(self)@.extends(old(self)@),
            final(self)@.same_scopes(old(self)@),
        decreases old(self)@.remaining(), 9int,
    {
        let (arg, get_op, set_op) = match self.resolve_local(&name) {
            Some(slot) => (slot, Opcode::GetLocal, Opcode::SetLocal),
            None => (self.identifier_constant(name), Opcode::GetGlobal, Opcode::SetGlobal),
        };
        if can_assign && self.match_(TokenType::Equal) {
            self.expression();
            self.emit_pair(set_op.as_u8(), arg);
        } else {
            self.emit_pair(get_op.as_u8(), arg);
        }
    }

    /// A use of the variable named by the token parsed last: see
    /// [`ParserView::named_variable`].
    pub(crate) fn variable(&mut self, can_assign: bool)
        requires
            old(self)@.wf(),
        ensures
            final(self)@.wf(),
            final(self)@ == old(self)@.named_variable(old(self)@.previous, can_assign),
            final(self)@.extends(old(self)@),
            final(self)@.same_scopes(old(self)@),
        decreases old(self)@.remaining(), 10int,
    {
        let name = self.previous;
        self.named_variable(name, can_assign);
    }

    /// Computes [`ParserView::grouping`].
    pub(crate) fn grouping(&mut self)
        requires
            old(self)@.wf(),
        ensures
            final(self)@.wf(),
            final(self)@ == old(self)@.grouping(),
            final(self)@.extends(old(self)@),
            final(self)@.same_scopes(old(self)@),
        decreases old(self)@.remaining(), 9int,
    {
        self.expression();
        self.consume(TokenType::RightParen, "Expect ')' after expression.");
    }

    /// Computes [`ParserView::unary`].
    pub(crate) fn unary(&mut self)
        requires
            old(self)@.wf(),
        ensures
            final(self)@.wf(),
            final(self)@ == old(self)@.unary(),
            final(self)@.extends(old(self)@),
            final(self)@.same_scopes(old(self)@),
        decreases old(self)@.remaining(), 9int,
    {
        let operator = self.previous.kind;
        self.parse_precedence(Precedence::Unary);
        match operator {
            TokenType::Bang => self.emit_byte(Opcode::Not.as_u8()),
            TokenType::Minus => self.emit_byte(Opcode::Negate.as_u8()),
            _ => {},
        }
    }

    /// Computes [`ParserView::binary`].
    pub(crate) fn binary(&mut self)
        requires
            old(self)@.wf(),
        ensures
            final(self)@.wf(),
            final(self)@ == old(self)@.binary(),
            final(self)@.extends(old(self)@),
            final(self)@.same_scopes(old(self)@),
        decreases old(self)@.remaining(), 9int,
    {
        let operator = self.previous.kind;
        let rule = get_rule(operator);
        self.parse_precedence(rule.precedence.next());
        self.emit_operator(operator);
    }

    /// Runs the routine that a token selected.
    pub(crate) fn run(&mut self, routine: ParseFn, can_assign: bool)
        requires
            old(self)@.wf(),
            routine == ParseFn::String ==> old(self)@.previous.kind == TokenType::String,
        ensures
            final(self)@.wf(),
            final(self)@ == old(self)@.run(routine, can_assign),
            final(self)@.extends(old(self)@),
            final(self)@.same_scopes(old(self)@),
        decreases old(self)@.remaining(), 11int,
    {
        match routine {
            ParseFn::Grouping => self.grouping(),
            ParseFn::Unary => self.unary(),
            ParseFn::Binary => self.binary(),
            ParseFn::Variable => self.variable(can_assign),
            ParseFn::String => self.string(),
            ParseFn::Number => self.number(),
            ParseFn::Literal => self.literal(),
            ParseFn::And => self.and_(),
            ParseFn::Or => self.or_(),
        }
    }

    /// Computes [`ParserView::parse_precedence`].
    pub(crate) fn parse_precedence(&mut self, precedence: Precedence)
        requires
            old(self)@.wf(),
        ensures
            final(self)@.wf(),
            final(self)@ == old(self)@.parse_precedence(precedence),
            final(self)@.extends(old(self)@),
            final(self)@.same_scopes(old(self)@),
            old(self)@.current.kind != TokenType::Eof ==> final(self)@.advanced(old(self)@),
        decreases old(self)@.remaining(), 4int,
    {
        self.advance();
        let prefix = match get_rule(self.previous.kind).prefix {
            Some(prefix) => prefix,
            None => {
                self.error("Expect expression.");
                return ;
            },
        };
        let can_assign = precedence.rank() <= Precedence::Assignment.rank();
        self.run(prefix, can_assign);
        let ghost head = self@;
        loop
            invariant
                self@.wf(),
                self@.infix_loop(precedence, can_assign) == head.infix_loop(precedence, can_assign),
                self@.extends(head),
                self@.same_scopes(head),
                head.advanced(old(self)@),
                head.extends(old(self)@),
            ensures
                self@.infix_loop(precedence, can_assign) == self@,
            decreases self@.remaining(),
        {
            let rule = get_rule(self.current.kind);
            let infix = match rule.infix {
                Some(infix) => infix,
                None => {
                    break ;
                },
            };
            if !(precedence.rank() <= rule.precedence.rank()) {
                break ;
            }
            self.advance();
            self.run(infix, can_assign);
        }
        if can_assign && self.match_(TokenType::Equal) {
            self.error("Invalid assignment target");
        }
    }

    /// Computes [`ParserView::expression`].
    pub(crate) fn expression(&mut self)
        requires
            old(self)@.wf(),
        ensures
            final(self)@.wf(),
            final(self)@ == old(self)@.expression(),
            final(self)@.extends(old(self)@),
            final(self)@.same_scopes(old(self)@),
            old(self)@.current.kind != TokenType::Eof ==> final(self)@.advanced(old(self)@),
        decreases old(self)@.remaining(), 5int,
    {
        self.parse_precedence(Precedence::Assignment)
    }
}

/// The rule of a token kind.
pub fn get_rule(kind: TokenType) -> (r: ParseRule)
    ensures
        r == rule(kind),
{
    let (prefix, infix, precedence) = match kind {
        TokenType::LeftParen => (Some(ParseFn::Grouping), None, Precedence::Lowest),
        TokenType::RightParen => (None, None, Precedence::Lowest),
        TokenType::LeftBrace => (None, None, Precedence::Lowest),
        TokenType::RightBrace => (None, None, Precedence::Lowest),
        TokenType::Comma => (None, None, Precedence::Lowest),
        TokenType::Dot => (None, None, Precedence::Lowest),
        TokenType::Minus => (Some(ParseFn::Unary), Some(ParseFn::Binary), Precedence::Term),
        TokenType::Plus => (None, Some(ParseFn::Binary), Precedence::Term),
        TokenType::Semicolon => (None, None, Precedence::Lowest),
        TokenType::Slash => (None, Some(ParseFn::Binary), Precedence::Factor),
        TokenType::Star => (None, Some(ParseFn::Binary), Precedence::Factor),
        TokenType::Bang => (Some(ParseFn::Unary), None, Precedence::Lowest),
        TokenType::BangEqual => (None, Some(ParseFn::Binary), Precedence::Equality),
        TokenType::Equal => (None, None, Precedence::Lowest),
        TokenType::EqualEqual => (None, Some(ParseFn::Binary), Precedence::Equality),
        TokenType::Greater => (None, Some(ParseFn::Binary), Precedence::Comparison),
        TokenType::GreaterEqual => (None, Some(ParseFn::Binary), Precedence::Comparison),
        TokenType::Less => (None, Some(ParseFn::Binary), Precedence::Comparison),
        TokenType::LessEqual => (None, Some(ParseFn::Binary), Precedence::Comparison),
        TokenType::Identifier => (Some(ParseFn::Variable), None, Precedence::Lowest),
        TokenType::String => (Some(ParseFn::String), None, Precedence::Lowest),
        TokenType::Number => (Some(ParseFn::Number), None, Precedence::Lowest),
        TokenType::And => (None, Some(ParseFn::And), Precedence::And),
        TokenType::Class => (None, None, Precedence::Lowest),
        TokenType::Else => (None, None, Precedence::Lowest),
        TokenType::False => (Some(ParseFn::Literal), None, Precedence::Lowest),
        TokenType::For => (None, None, Precedence::Lowest),
        TokenType::Fun => (None, None, Precedence::Lowest),
        TokenType::If => (None, None, Precedence::Lowest),
        TokenType::Nil => (Some(ParseFn::Literal), None, Precedence::Lowest),
        TokenType::Or => (None, Some(ParseFn::Or), Precedence::Or),
        TokenType::Print => (None, None, Precedence::Lowest),
        TokenType::Return => (None, None, Precedence::Lowest),
        TokenType::Super => (None, None, Precedence::Lowest),
        TokenType::This => (None, None, Precedence::Lowest),
        TokenType::True => (Some(ParseFn::Literal), None, Precedence::Lowest),
        TokenType::Var => (None, None, Precedence::Lowest),
        TokenType::While => (None, None, Precedence::Lowest),
        TokenType::Error => (None, None, Precedence::Lowest),
        TokenType::Eof => (None, None, Precedence::Lowest),
    };
    ParseRule { prefix, infix, precedence }
}

} // verus!
