//! Scopes and local variables.

use vstd::prelude::*;
use crate::chunk::{Id, Opcode};
use crate::compiler::model::{
    deeper, declared_in_scope, newest_named, LocalView, ParserView, MAX_LOCALS,
};
use crate::compiler::parser::{Local, Parser};
use crate::scanner::{Token, TokenType};
use crate::value::text_equal;

verus! {

impl<'s, 'l> Parser<'s, 'l> {
    /// Computes [`ParserView::begin_scope`].
    pub(crate) fn begin_scope(&mut self)
        requires
            old(self)@.wf(),
            old(self)@.has_slack(),
        ensures
            final(self)@.wf(),
            final(self)@ == old(self)@.begin_scope(),
            final(self)@.scope_depth > 0,
            final(self)@.extends(old(self)@),
            final(self)@.same_tokens(old(self)@),
            final(self)@.remaining() == old(self)@.remaining(),
    {
        reveal(ParserView::wf);
        self.compiler.scope_depth += 1;
    }

    /// Computes [`ParserView::end_scope`].
    pub(crate) fn end_scope(&mut self)
        requires
            old(self)@.wf(),
            old(self)@.scope_depth > 0,
        ensures
            final(self)@.wf(),
            final(self)@ == old(self)@.end_scope(),
            final(self)@.extends(old(self)@),
            final(self)@.same_tokens(old(self)@),
            final(self)@.scope_depth == old(self)@.scope_depth - 1,
    {
        reveal(ParserView::wf);
        reveal(ParserView::end_scope);
        reveal(ParserView::pop_locals);
        self.compiler.scope_depth -= 1;
        let ghost lowered = self@;
        loop
            invariant
                self@.wf(),
                self@.pop_locals() == lowered.pop_locals(),
                lowered == old(self)@.end_scope_begin(),
                self@.extends(old(self)@),
                self@.same_tokens(old(self)@),
                self@.scope_depth == old(self)@.scope_depth - 1,
            decreases self@.locals.len(),
        {
            reveal(ParserView::pop_locals);
            reveal(ParserView::end_scope);
            reveal(ParserView::wf);
            let n = self.compiler.locals.len();
            if n == 0 {
                return ;
            }
            let leaves = match self.compiler.locals[n - 1].depth {
                Some(d) => d > self.compiler.scope_depth,
                None => true,
            };
            assert(self@.locals.last() == self.compiler.locals@[n - 1]@);
            assert(leaves == deeper(self@.locals.last().depth, self@.scope_depth));
            if !leaves {
                return ;
            }
            let ghost before = self@;
            self.emit_byte(Opcode::Pop.as_u8());
            let ghost emitted = self@;
            self.compiler.locals.pop();
            proof {
                assert(self@.locals =~= before.locals.drop_last());
                assert(self@ == (ParserView { locals: before.locals.drop_last(), ..emitted }));
            }
        }
    }

    /// Computes [`ParserView::resolve_local`].
    pub(crate) fn resolve_local(&mut self, name: &Token<'s>) -> (slot: Option<u8>)
        requires
            old(self)@.wf(),
        ensures
            final(self)@.wf(),
            final(self)@ == old(self)@.resolve_local(name@),
            final(self)@.extends(old(self)@),
            final(self)@.same_tokens(old(self)@),
            final(self)@.same_scopes(old(self)@),
            slot == old(self)@.local_slot(name@),
            final(self)@.here() == old(self)@.here(),
    {
        reveal(ParserView::wf);
        reveal(ParserView::resolve_local);
        let ghost locals = self@.locals;
        let mut i = self.compiler.locals.len();
        proof {
            assert(locals.take(i as int) =~= locals);
        }
        while i > 0
            invariant
                locals == self@.locals,
                self@ == old(self)@,
                self@.wf(),
                i <= locals.len() <= MAX_LOCALS,
                locals.len() == self.compiler.locals@.len(),
                newest_named(locals.take(i as int), name@.lexeme) == newest_named(
                    locals,
                    name@.lexeme,
                ),
            decreases i,
        {
            reveal(ParserView::resolve_local);
            reveal(ParserView::wf);
            assert(locals.take(i as int).last() == self.compiler.locals@[i - 1]@);
            assert(locals.take(i as int).drop_last() =~= locals.take(i - 1));
            if text_equal(name.lexeme, self.compiler.locals[i - 1].name.lexeme) {
                if self.compiler.locals[i - 1].depth.is_none() {
                    self.error("Can't read local variable in its own initializer.");
                }
                return Some((i - 1) as u8);
            }
            i -= 1;
        }
        None
    }

    /// Computes [`ParserView::add_local`].
    pub(crate) fn add_local(&mut self, name: Token<'s>)
        requires
            old(self)@.wf(),
        ensures
            final(self)@.wf(),
            final(self)@ == old(self)@.add_local(name@),
            final(self)@.extends(old(self)@),
            final(self)@.same_tokens(old(self)@),
            final(self)@.here() == old(self)@.here(),
            final(self)@.scope_depth == old(self)@.scope_depth,
    {
        reveal(ParserView::wf);
        reveal(ParserView::add_local);
        if self.compiler.locals.len() >= MAX_LOCALS {
            self.error("Too many local variables in function.");
            return ;
        }
        let local = Local { name, depth: None };
        self.compiler.locals.push(local);
        proof {
            assert(self@.locals =~= old(self)@.locals.push(
                LocalView { name: name@.lexeme, depth: None },
            ));
        }
    }

    /// Computes [`ParserView::declare_variable`].
    pub(crate) fn declare_variable(&mut self)
        requires
            old(self)@.wf(),
        ensures
            final(self)@.wf(),
            final(self)@ == old(self)@.declare_variable(),
            final(self)@.extends(old(self)@),
            final(self)@.same_tokens(old(self)@),
            final(self)@.here() == old(self)@.here(),
            final(self)@.scope_depth == old(self)@.scope_depth,
    {
        reveal(ParserView::wf);
        reveal(ParserView::declare_variable);
        if self.compiler.scope_depth == 0 {
            return ;
        }
        let name = self.previous;
        let ghost locals = self@.locals;
        let ghost depth = self@.scope_depth;
        let mut clash = false;
        let mut i = self.compiler.locals.len();
        proof {
            assert(locals.take(i as int) =~= locals);
        }
        while i > 0
            invariant
                locals == self@.locals,
                depth == self@.scope_depth,
                self@ == old(self)@,
                name@ == self@.previous,
                i <= locals.len(),
                locals.len() == self.compiler.locals@.len(),
                declared_in_scope(locals, name@.lexeme, depth) == (clash || declared_in_scope(
                    locals.take(i as int),
                    name@.lexeme,
                    depth,
                )),
            decreases i,
        {
            assert(locals.take(i as int).last() == self.compiler.locals@[i - 1]@);
            assert(locals.take(i as int).drop_last() =~= locals.take(i - 1));
            let outer = match self.compiler.locals[i - 1].depth {
                Some(d) => d < self.compiler.scope_depth,
                None => false,
            };
            if outer {
                i = 0;
                proof {
                    assert(locals.take(0).len() == 0);
                }
            } else {
                if text_equal(name.lexeme, self.compiler.locals[i - 1].name.lexeme) {
                    clash = true;
                }
                i -= 1;
            }
        }
        proof {
            assert(locals.take(0).len() == 0);
        }
        if clash {
            self.error("Already a variable with this name in this scope.");
        }
        self.add_local(name);
    }

    /// Computes [`ParserView::parse_variable`].
    pub(crate) fn parse_variable(&mut self, message: &str) -> (global: Option<Id>)
        requires
            old(self)@.wf(),
        ensures
            final(self)@.wf(),
            final(self)@ == old(self)@.parse_variable(message@),
            final(self)@.extends(old(self)@),
            global.unwrap_or(0) == old(self)@.variable_id(message@),
            global is None <==> final(self)@.scope_depth > 0,
            final(self)@.scope_depth == old(self)@.scope_depth,
    {
        reveal(ParserView::parse_variable);
        reveal(ParserView::variable_id);
        self.consume(TokenType::Identifier, message);
        self.declare_variable();
        if self.compiler.scope_depth > 0 {
            return None;
        }
        let name = self.previous;
        Some(self.identifier_constant(name))
    }

    /// Computes [`ParserView::mark_initialized`].
    pub(crate) fn mark_initialized(&mut self)
        requires
            old(self)@.wf(),
        ensures
            final(self)@.wf(),
            final(self)@ == old(self)@.mark_initialized(),
            final(self)@.extends(old(self)@),
            final(self)@.same_tokens(old(self)@),
            final(self)@.here() == old(self)@.here(),
            final(self)@.same_scopes(old(self)@),
    {
        reveal(ParserView::wf);
        reveal(ParserView::mark_initialized);
        let n = self.compiler.locals.len();
        if n == 0 {
            return ;
        }
        let name = self.compiler.locals[n - 1].name;
        let local = Local { name, depth: Some(self.compiler.scope_depth) };
        self.compiler.locals[n - 1] = local;
        proof {
            assert(old(self)@.locals.last() == old(self).compiler.locals@[n - 1]@);
            assert(self@.locals =~= old(self)@.mark_initialized().locals);
        }
    }

    /// Computes [`ParserView::define_variable`].
    pub(crate) fn define_variable(&mut self, global: Id)
        requires
            old(self)@.wf(),
        ensures
            final(self)@.wf(),
            final(self)@ == old(self)@.define_variable(global),
            final(self)@.extends(old(self)@),
            final(self)@.same_tokens(old(self)@),
            final(self)@.same_scopes(old(self)@),
    {
        reveal(ParserView::define_variable);
        if self.compiler.scope_depth > 0 {
            self.mark_initialized();
            return ;
        }
        self.emit_pair(Opcode::DefineGlobal.as_u8(), global);
    }
}

} // verus!
