//! The rule that tells the statements apart.

use vstd::prelude::*;
use crate::compiler::parser::Parser;
use crate::scanner::TokenType;

verus! {

impl<'s, 'l> Parser<'s, 'l> {
    /// Computes [`ParserView::statement`].
    pub(crate) fn statement(&mut self)
        requires
            old(self)@.wf(),
        ensures
            final(self)@.wf(),
            final(self)@ == old(self)@.statement(),
            final(self)@.extends(old(self)@),
            final(self)@.scope_depth == old(self)@.scope_depth,
            old(self)@.current.kind != TokenType::Eof ==> final(self)@.advanced(old(self)@),
        decreases old(self)@.remaining(), 7int,
    {
        if self.match_(TokenType::Print) {
            self.print_statement();
        } else if self.match_(TokenType::For) {
            self.for_statement();
        } else if self.match_(TokenType::If) {
            self.if_statement();
        } else if self.match_(TokenType::While) {
            self.while_statement();
        } else if self.match_(TokenType::LeftBrace) {
            self.begin_scope();
            self.block();
            self.end_scope();
        } else {
            self.expression_statement();
        }
    }
}

} // verus!
