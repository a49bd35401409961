//! The executable parser. Each of its routines computes the function of the
//! same name in the model.

use vstd::prelude::*;
use crate::chunk::Chunk;
use crate::compiler::model::{DiagnosticView, LocalView, ParserView, PlaceView};
use crate::scanner::{Scanner, Token, TokenType};

verus! {

/// Where in the source an error was found.
#[derive(Debug)]
pub enum Place {
    /// At the end of the source.
    End,
    /// At the token with this text.
    Lexeme(String),
    /// At a piece of source that is no token.
    Nowhere,
}

impl View for Place {
    type V = PlaceView;

    open spec fn view(&self) -> PlaceView {
        match self {
            Place::End => PlaceView::End,
            Place::Lexeme(text) => PlaceView::Lexeme(text@),
            Place::Nowhere => PlaceView::Nowhere,
        }
    }
}

/// A compile error as it is to be reported: the line, where on it, and what
/// is wrong.
#[derive(Debug)]
pub struct Diagnostic {
    pub line: u32,
    pub place: Place,
    pub message: String,
}

impl View for Diagnostic {
    type V = DiagnosticView;

    open spec fn view(&self) -> DiagnosticView {
        DiagnosticView { line: self.line, place: self.place@, message: self.message@ }
    }
}

/// What a sequence of diagnostics holds.
pub open spec fn diagnostic_views(diagnostics: Seq<Diagnostic>) -> Seq<DiagnosticView> {
    diagnostics.map_values(|d: Diagnostic| d@)
}

/// A local variable of the block being compiled.
pub struct Local<'s> {
    pub(crate) name: Token<'s>,
    pub(crate) depth: Option<usize>,
}

impl<'s> View for Local<'s> {
    type V = LocalView;

    open(crate) spec fn view(&self) -> LocalView {
        LocalView {
            name: self.name@.lexeme,
            depth: match self.depth {
                Some(d) => Some(d as int),
                None => None,
            },
        }
    }
}

pub(crate) open spec fn local_views<'s>(locals: Seq<Local<'s>>) -> Seq<LocalView> {
    locals.map_values(|l: Local<'s>| l@)
}

/// The scopes of the code being compiled: the locals in scope, and how deep
/// the innermost scope lies.
pub struct Compiler<'s> {
    pub(crate) locals: Vec<Local<'s>>,
    pub(crate) scope_depth: usize,
}

impl<'s> Compiler<'s> {
    /// No locals, in the global scope.
    pub fn new() -> (r: Self)
        ensures
            r.locals() == Seq::<LocalView>::empty(),
            r.scope_depth() == 0,
    {
        let r = Compiler { locals: Vec::new(), scope_depth: 0 };
        assert(r.locals() =~= Seq::<LocalView>::empty());
        r
    }

    /// The locals in scope, oldest first.
    pub open(crate) spec fn locals(&self) -> Seq<LocalView> {
        local_views(self.locals@)
    }

    /// The depth of the innermost scope; 0 is the global scope.
    pub open(crate) spec fn scope_depth(&self) -> int {
        self.scope_depth as int
    }
}

pub(crate) struct Parser<'s, 'l> {
    pub(crate) scanner: Scanner<'s>,
    pub(crate) literals: &'l [u64],
    pub(crate) numbers_seen: usize,
    pub(crate) compiler: Compiler<'s>,
    pub(crate) chunk: Chunk,
    pub(crate) current: Token<'s>,
    pub(crate) previous: Token<'s>,
    pub(crate) current_number: u64,
    pub(crate) previous_number: u64,
    pub(crate) had_error: bool,
    pub(crate) panic_mode: bool,
    pub(crate) diagnostics: Vec<Diagnostic>,
}

impl<'s, 'l> View for Parser<'s, 'l> {
    type V = ParserView;

    open(crate) spec fn view(&self) -> ParserView {
        ParserView {
            scanner: self.scanner@,
            literals: self.literals@,
            numbers_seen: self.numbers_seen as int,
            current: self.current@,
            previous: self.previous@,
            current_number: self.current_number,
            previous_number: self.previous_number,
            had_error: self.had_error,
            panic_mode: self.panic_mode,
            diagnostics: diagnostic_views(self.diagnostics@),
            locals: self.compiler.locals(),
            scope_depth: self.compiler.scope_depth(),
            chunk: self.chunk@,
        }
    }
}

impl<'s, 'l> Parser<'s, 'l> {
    pub(crate) fn new(scanner: Scanner<'s>, literals: &'l [u64], chunk: Chunk) -> (r: Self)
        requires
            scanner@ == crate::scanner::ScannerView::begin(scanner@.source),
            scanner.wf(),
            chunk@.wf(),
        ensures
            r@ == ParserView::begin(scanner@.source, literals@, chunk@),
            r@.wf(),
    {
        reveal(ParserView::wf);
        let empty = Token { kind: TokenType::Error, lexeme: "", line: 0 };
        let _ = chunk.len();
        let r = Parser {
            scanner,
            literals,
            numbers_seen: 0,
            compiler: Compiler::new(),
            chunk,
            current: empty,
            previous: empty,
            current_number: 0,
            previous_number: 0,
            had_error: false,
            panic_mode: false,
            diagnostics: Vec::new(),
        };
        assert(r@.diagnostics =~= Seq::<DiagnosticView>::empty());
        r
    }

    /// Gives up the parser for what it has made: the chunk, whether an error
    /// was found, and the errors reported.
    pub(crate) fn finish(self) -> (r: (Chunk, bool, Vec<Diagnostic>))
        ensures
            r.0@ == self@.chunk,
            r.1 == self@.had_error,
            diagnostic_views(r.2@) == self@.diagnostics,
    {
        (self.chunk, self.had_error, self.diagnostics)
    }

    /// Computes [`ParserView::error_at`].
    pub(crate) fn error_at(&mut self, token: Token<'s>, message: &str)
        requires
            old(self)@.wf(),
        ensures
            final(self)@.wf(),
            final(self)@ == old(self)@.error_at(token@, message@),
            final(self)@.extends(old(self)@),
            final(self)@.same_scopes(old(self)@),
            final(self)@.same_code(old(self)@),
            final(self)@.same_tokens(old(self)@),
    {
        reveal(ParserView::wf);
        reveal(ParserView::error_at);
        if self.panic_mode {
            return ;
        }
        self.panic_mode = true;
        let place = match token.kind {
            TokenType::Eof => Place::End,
            TokenType::Error => Place::Nowhere,
            _ => Place::Lexeme(token.lexeme.to_owned()),
        };
        let diagnostic = Diagnostic { line: token.line, place, message: message.to_owned() };
        self.diagnostics.push(diagnostic);
        self.had_error = true;
        proof {
            assert(self@.diagnostics =~= old(self)@.error_at(token@, message@).diagnostics);
        }
    }

    /// Computes [`ParserView::error`].
    pub(crate) fn error(&mut self, message: &str)
        requires
            old(self)@.wf(),
        ensures
            final(self)@.wf(),
            final(self)@ == old(self)@.error(message@),
            final(self)@.extends(old(self)@),
            final(self)@.same_scopes(old(self)@),
            final(self)@.same_code(old(self)@),
            final(self)@.same_tokens(old(self)@),
    {
        let token = self.previous;
        self.error_at(token, message)
    }

    /// Computes [`ParserView::error_at_current`].
    pub(crate) fn error_at_current(&mut self, message: &str)
        requires
            old(self)@.wf(),
        ensures
            final(self)@.wf(),
            final(self)@ == old(self)@.error_at_current(message@),
            final(self)@.extends(old(self)@),
            final(self)@.same_scopes(old(self)@),
            final(self)@.same_code(old(self)@),
            final(self)@.same_tokens(old(self)@),
    {
        let token = self.current;
        self.error_at(token, message)
    }

    /// Computes [`ParserView::advance`].
    pub(crate) fn advance(&mut self)
        requires
            old(self)@.wf(),
        ensures
            final(self)@.wf(),
            final(self)@ == old(self)@.advance(),
            final(self)@.extends(old(self)@),
            final(self)@.same_scopes(old(self)@),
            final(self)@.same_code(old(self)@),
            final(self)@.previous == old(self)@.current,
            old(self)@.current.kind != TokenType::Eof ==> final(self)@.advanced(old(self)@),
            old(self)@.current.kind != TokenType::Eof ==> final(self)@.has_slack(),
    {
        reveal(ParserView::wf);
        reveal(ParserView::advance);
        reveal(ParserView::scan);
        self.previous = self.current;
        self.previous_number = self.current_number;
        let ghost begun = self@;
        loop
            invariant
                self@.scanner.wf(),
                self@.scan() == begun.scan(),
                begun.scan() == old(self)@.advance(),
                self@ == (ParserView {
                    scanner: self@.scanner,
                    had_error: self@.had_error,
                    panic_mode: self@.panic_mode,
                    diagnostics: self@.diagnostics,
                    current: self@.current,
                    ..begun
                }),
                begun == (ParserView {
                    previous: old(self)@.current,
                    previous_number: old(self)@.current_number,
                    ..old(self)@
                }),
                old(self)@.wf(),
                self@.scanner.source == begun.scanner.source,
                begun.scanner.current <= self@.scanner.current,
                self@.panic_mode ==> self@.had_error,
                self@.same_code(old(self)@),
            decreases self@.scanner.source.len() - self@.scanner.current,
        {
            reveal(ParserView::scan);
            reveal(ParserView::error_at);
            reveal(ParserView::wf);
            let ghost before = self@;
            let token = self.scanner.scan_token();
            self.current = token;
            if token.kind != TokenType::Error {
                if token.kind == TokenType::Number {
                    self.current_number = if self.numbers_seen < self.literals.len() {
                        self.literals[self.numbers_seen]
                    } else {
                        0
                    };
                    self.numbers_seen += 1;
                }
                return ;
            }
            let ghost read = self@;
            let message = token.lexeme;
            if !self.panic_mode {
                self.panic_mode = true;
                let diagnostic = Diagnostic {
                    line: token.line,
                    place: Place::Nowhere,
                    message: message.to_owned(),
                };
                self.diagnostics.push(diagnostic);
                self.had_error = true;
                proof {
                    assert(self@.diagnostics =~= read.error_at_current(token@.lexeme).diagnostics);
                }
            }
        }
    }

    /// Computes [`ParserView::check`].
    pub(crate) fn check(&self, kind: TokenType) -> (r: bool)
        ensures
            r == self@.check(kind),
    {
        self.current.kind == kind
    }

    /// Moves on if the next token is of `kind` and says whether it was: see
    /// [`ParserView::accept`].
    pub(crate) fn match_(&mut self, kind: TokenType) -> (r: bool)
        requires
            old(self)@.wf(),
        ensures
            final(self)@.wf(),
            r == old(self)@.check(kind),
            final(self)@ == old(self)@.accept(kind),
            final(self)@.extends(old(self)@),
            final(self)@.same_scopes(old(self)@),
            final(self)@.same_code(old(self)@),
            r ==> final(self)@.previous == old(self)@.current,
            r ==> final(self)@ == old(self)@.advance(),
            !r ==> final(self)@ == old(self)@,
            r && kind != TokenType::Eof ==> final(self)@.advanced(old(self)@),
            r && kind != TokenType::Eof ==> final(self)@.has_slack(),
    {
        reveal(ParserView::accept);
        reveal(ParserView::wf);
        if self.check(kind) {
            self.advance();
            true
        } else {
            false
        }
    }

    /// Computes [`ParserView::consume`].
    pub(crate) fn consume(&mut self, kind: TokenType, message: &str)
        requires
            old(self)@.wf(),
        ensures
            final(self)@.wf(),
            final(self)@ == old(self)@.consume(kind, message@),
            final(self)@.extends(old(self)@),
            final(self)@.same_scopes(old(self)@),
            final(self)@.same_code(old(self)@),
    {
        reveal(ParserView::consume);
        if self.check(kind) {
            self.advance();
        } else {
            self.error_at_current(message);
        }
    }
}

} // verus!
