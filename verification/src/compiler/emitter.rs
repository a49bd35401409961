//! Writing code: bytes, jumps and their patches, and constants.

use vstd::prelude::*;
use vstd::utf8::encode_utf8;
use crate::chunk::{Id, Opcode, MAX_CONSTANTS};
use crate::compiler::model::{ParserView, MAX_JUMP};
use crate::compiler::parser::Parser;
use crate::scanner::{Token, TokenType};
use crate::value::Value;

verus! {

impl<'s, 'l> Parser<'s, 'l> {
    /// Computes [`ParserView::emit_byte`].
    pub(crate) fn emit_byte(&mut self, byte: u8)
        requires
            old(self)@.wf(),
        ensures
            final(self)@.wf(),
            final(self)@ == old(self)@.emit_byte(byte),
            final(self)@.extends(old(self)@),
            final(self)@.same_scopes(old(self)@),
            final(self)@.same_tokens(old(self)@),
            final(self)@.here() == old(self)@.here() + 1,
    {
        reveal(ParserView::wf);
        self.chunk.write_byte(byte, self.previous.line);
        let _ = self.chunk.len();
    }

    /// Computes [`ParserView::emit_bytes`].
    pub(crate) fn emit_bytes(&mut self, bytes: &[u8])
        requires
            old(self)@.wf(),
        ensures
            final(self)@.wf(),
            final(self)@ == old(self)@.emit_bytes(bytes@),
            final(self)@.extends(old(self)@),
            final(self)@.same_scopes(old(self)@),
            final(self)@.same_tokens(old(self)@),
    {
        reveal(ParserView::wf);
        reveal(ParserView::emit_bytes);
        let mut i: usize = 0;
        while i < bytes.len()
            invariant
                i <= bytes@.len(),
                self@.wf(),
                self@ == old(self)@.emit_bytes(bytes@.take(i as int)),
                self@.extends(old(self)@),
                self@.same_scopes(old(self)@),
                self@.same_tokens(old(self)@),
            decreases bytes@.len() - i,
        {
            reveal(ParserView::emit_bytes);
            proof {
                assert(bytes@.take(i + 1).drop_last() =~= bytes@.take(i as int));
            }
            self.emit_byte(bytes[i]);
            i += 1;
        }
        proof {
            assert(bytes@.take(i as int) =~= bytes@);
        }
    }

    /// Emits an instruction with its one-byte operand.
    pub(crate) fn emit_pair(&mut self, first: u8, second: u8)
        requires
            old(self)@.wf(),
        ensures
            final(self)@.wf(),
            final(self)@ == old(self)@.emit_bytes(seq![first, second]),
            final(self)@.extends(old(self)@),
            final(self)@.same_scopes(old(self)@),
            final(self)@.same_tokens(old(self)@),
    {
        let pair = [first, second];
        proof {
            assert(pair@ =~= seq![first, second]);
        }
        self.emit_bytes(pair.as_slice());
    }

    /// Computes [`ParserView::emit_loop`].
    pub(crate) fn emit_loop(&mut self, loop_start: usize)
        requires
            old(self)@.wf(),
            loop_start <= old(self)@.here(),
        ensures
            final(self)@.wf(),
            final(self)@ == old(self)@.emit_loop(loop_start as int),
            final(self)@.extends(old(self)@),
            final(self)@.same_scopes(old(self)@),
            final(self)@.same_tokens(old(self)@),
    {
        reveal(ParserView::emit_loop);
        self.emit_byte(Opcode::Loop.as_u8());
        let distance: u128 = (self.chunk.len() - loop_start) as u128 + 2;
        if distance > MAX_JUMP as u128 {
            self.error("Loop body too large.");
        }
        self.emit_pair((distance % 256) as u8, ((distance / 256) % 256) as u8);
    }

    /// Computes [`ParserView::emit_jump`].
    pub(crate) fn emit_jump(&mut self, instruction: u8) -> (operand: usize)
        requires
            old(self)@.wf(),
        ensures
            final(self)@.wf(),
            final(self)@ == old(self)@.emit_jump(instruction),
            final(self)@.extends(old(self)@),
            final(self)@.same_scopes(old(self)@),
            final(self)@.same_tokens(old(self)@),
            operand == old(self)@.jump_operand(),
            operand + 2 == final(self)@.here(),
    {
        self.emit_byte(instruction);
        let operand = self.chunk.len();
        self.emit_byte(0xff);
        self.emit_byte(0xff);
        operand
    }

    /// Computes [`ParserView::make_constant`].
    pub(crate) fn make_constant(&mut self, value: Value) -> (id: Id)
        requires
            old(self)@.wf(),
        ensures
            final(self)@.wf(),
            final(self)@ == old(self)@.make_constant(value@),
            final(self)@.extends(old(self)@),
            final(self)@.same_scopes(old(self)@),
            final(self)@.same_tokens(old(self)@),
            id == old(self)@.constant_id(value@),
            final(self)@.here() == old(self)@.here(),
    {
        reveal(ParserView::wf);
        reveal(ParserView::make_constant);
        if let Some(id) = self.chunk.find_constant(&value) {
            return id;
        }
        if self.chunk.constants_len() >= MAX_CONSTANTS {
            self.error("Too many constants in one chunk.");
            return 0;
        }
        self.chunk.add_constant(value)
    }

    /// Computes [`ParserView::emit_constant`].
    pub(crate) fn emit_constant(&mut self, value: Value)
        requires
            old(self)@.wf(),
        ensures
            final(self)@.wf(),
            final(self)@ == old(self)@.emit_constant(value@),
            final(self)@.extends(old(self)@),
            final(self)@.same_scopes(old(self)@),
            final(self)@.same_tokens(old(self)@),
    {
        reveal(ParserView::emit_constant);
        let id = self.make_constant(value);
        self.emit_pair(Opcode::Constant.as_u8(), id);
    }

    /// Computes [`ParserView::patch_jump`].
    pub(crate) fn patch_jump(&mut self, offset: usize)
        requires
            old(self)@.wf(),
            offset + 2 <= old(self)@.here(),
        ensures
            final(self)@.wf(),
            final(self)@ == old(self)@.patch_jump(offset as int),
            final(self)@.extends(old(self)@),
            final(self)@.same_scopes(old(self)@),
            final(self)@.same_tokens(old(self)@),
            final(self)@.here() == old(self)@.here(),
    {
        reveal(ParserView::wf);
        reveal(ParserView::patch_jump);
        let jump = self.chunk.len() - offset - 2;
        if jump > MAX_JUMP {
            self.error("Too much code to jump over.");
        } else {
            self.chunk.patch(offset, jump as u16);
        }
    }

    /// Appends `Return`.
    pub(crate) fn emit_return(&mut self)
        requires
            old(self)@.wf(),
        ensures
            final(self)@.wf(),
            final(self)@ == old(self)@.emit_byte(Opcode::Return.byte()),
            final(self)@.extends(old(self)@),
            final(self)@.same_scopes(old(self)@),
            final(self)@.same_tokens(old(self)@),
    {
        self.emit_byte(Opcode::Return.as_u8());
    }

    /// Computes [`ParserView::end_compiler`].
    pub(crate) fn end_compiler(&mut self)
        requires
            old(self)@.wf(),
        ensures
            final(self)@.wf(),
            final(self)@ == old(self)@.end_compiler(),
            final(self)@.extends(old(self)@),
            final(self)@.same_scopes(old(self)@),
            final(self)@.same_tokens(old(self)@),
    {
        self.emit_return();
    }

    /// Computes [`ParserView::number`].
    pub(crate) fn number(&mut self)
        requires
            old(self)@.wf(),
        ensures
            final(self)@.wf(),
            final(self)@ == old(self)@.number(),
            final(self)@.extends(old(self)@),
            final(self)@.same_scopes(old(self)@),
            final(self)@.same_tokens(old(self)@),
    {
        reveal(ParserView::number);
        self.emit_constant(Value::Number(self.previous_number));
    }

    /// Computes [`ParserView::string`].
    pub(crate) fn string(&mut self)
        requires
            old(self)@.wf(),
            old(self)@.previous.kind == TokenType::String,
        ensures
            final(self)@.wf(),
            final(self)@ == old(self)@.string(),
            final(self)@.extends(old(self)@),
            final(self)@.same_scopes(old(self)@),
            final(self)@.same_tokens(old(self)@),
    {
        reveal(ParserView::wf);
        reveal(ParserView::string);
        let lexeme = self.previous.lexeme;
        let ghost bytes = encode_utf8(lexeme@);
        proof {
            vstd::utf8::encode_utf8_valid_utf8(lexeme@);
            crate::scanner::char_starts_after_ascii(bytes, 0);
            crate::scanner::cut_at_char_start(bytes, 1);
        }
        let (_, tail) = lexeme.split_at(1);
        let inner_len = tail.as_bytes().len() - 1;
        proof {
            vstd::utf8::encode_utf8_valid_utf8(tail@);
            assert(encode_utf8(tail@) =~= bytes.subrange(1, bytes.len() as int));
            crate::scanner::cut_at_char_start(encode_utf8(tail@), inner_len as int);
        }
        let (inner, _) = tail.split_at(inner_len);
        proof {
            vstd::utf8::encode_utf8_decode_utf8(inner@);
            assert(encode_utf8(inner@) =~= bytes.subrange(1, bytes.len() - 1));
        }
        self.emit_constant(Value::string(inner.to_owned()));
    }

    /// Computes [`ParserView::literal`].
    pub(crate) fn literal(&mut self)
        requires
            old(self)@.wf(),
        ensures
            final(self)@.wf(),
            final(self)@ == old(self)@.literal(),
            final(self)@.extends(old(self)@),
            final(self)@.same_scopes(old(self)@),
            final(self)@.same_tokens(old(self)@),
    {
        reveal(ParserView::wf);
        reveal(ParserView::literal);
        match self.previous.kind {
            TokenType::False => self.emit_byte(Opcode::False.as_u8()),
            TokenType::Nil => self.emit_byte(Opcode::Nil.as_u8()),
            TokenType::True => self.emit_byte(Opcode::True.as_u8()),
            _ => {},
        }
    }

    /// Computes [`ParserView::identifier_constant`].
    pub(crate) fn identifier_constant(&mut self, name: Token<'s>) -> (id: Id)
        requires
            old(self)@.wf(),
        ensures
            final(self)@.wf(),
            final(self)@ == old(self)@.identifier_constant(name@),
            final(self)@.extends(old(self)@),
            final(self)@.same_scopes(old(self)@),
            final(self)@.same_tokens(old(self)@),
            id == old(self)@.identifier_id(name@),
            final(self)@.here() == old(self)@.here(),
    {
        reveal(ParserView::identifier_constant);
        self.make_constant(Value::string(name.lexeme.to_owned()))
    }
}

} // verus!
