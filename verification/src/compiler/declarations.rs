//! Declarations, blocks, and the loop over a whole program.

use vstd::prelude::*;
use crate::compiler::model::ParserView;
use crate::compiler::parser::Parser;
use crate::scanner::TokenType;

verus! {

impl<'s, 'l> Parser<'s, 'l> {
    /// Computes [`ParserView::block`].
    pub(crate) fn block(&mut self)
        requires
            old(self)@.wf(),
        ensures
            final(self)@.wf(),
            final(self)@ == old(self)@.block(),
            final(self)@.extends(old(self)@),
            final(self)@.scope_depth == old(self)@.scope_depth,
        decreases old(self)@.remaining(), 10int,
    {
        reveal(ParserView::wf);
        while !self.check(TokenType::RightBrace) && !self.check(TokenType::Eof)
            invariant
                self@.wf(),
                self@.block_items() == old(self)@.block_items(),
                self@.extends(old(self)@),
                self@.scope_depth == old(self)@.scope_depth,
            decreases self@.remaining(),
        {
            reveal(ParserView::declaration);
            self.declaration();
        }
        self.consume(TokenType::RightBrace, "Expect '}' after block.");
    }

    /// Computes [`ParserView::declaration`].
    pub(crate) fn declaration(&mut self)
        requires
            old(self)@.wf(),
        ensures
            final(self)@.wf(),
            final(self)@ == old(self)@.declaration(),
            final(self)@.extends(old(self)@),
            final(self)@.scope_depth == old(self)@.scope_depth,
            old(self)@.current.kind != TokenType::Eof ==> final(self)@.advanced(old(self)@),
        decreases old(self)@.remaining(), 8int,
    {
        reveal(ParserView::declaration);
        if self.match_(TokenType::Var) {
            self.var_declaration();
        } else {
            self.statement();
        }
        if self.panic_mode {
            self.synchronize();
        }
    }

    /// Compiles declarations up to the end of the source.
    pub(crate) fn program(&mut self)
        requires
            old(self)@.wf(),
        ensures
            final(self)@.wf(),
            final(self)@ == old(self)@.program(),
            final(self)@.extends(old(self)@),
    {
        reveal(ParserView::wf);
        while !self.check(TokenType::Eof)
            invariant
                self@.wf(),
                self@.program() == old(self)@.program(),
                self@.extends(old(self)@),
            decreases self@.remaining(),
        {
                self.declaration();
        }
        self.advance();
    }
}

} // verus!
