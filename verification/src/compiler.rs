//! The single-pass compiler: a Pratt parser that writes bytecode as it
//! parses.
//!
//! The values of number literals are rounded outside this library. The
//! caller of [`compile`] hands them in, one for each number token of the
//! source in the order of [`crate::scanner::number_literals`].

pub mod declarations;
pub mod discipline;
pub mod dispatch;
pub mod emitter;
pub mod expressions;
pub mod induction;
pub mod laws;
pub mod model;
pub mod parser;
pub mod progress;
pub mod scopes;
pub mod scoping;
pub mod statements;

use vstd::prelude::*;
use vstd::utf8::encode_utf8;
use crate::chunk::Chunk;
use crate::compiler::model::{compiled, ParserView};
use crate::compiler::parser::{diagnostic_views, Diagnostic, Parser};
use crate::scanner::Scanner;

verus! {

/// Why a source did not compile: the errors in the order in which they were
/// found.
#[derive(Debug)]
pub struct CompileError {
    pub diagnostics: Vec<Diagnostic>,
}

/// Compiles `source` onto the end of `chunk` and closes it with `Return`.
///
/// `literals` holds the bits of the double of each number token, in the
/// order of the tokens; a token without one counts as bits 0. Code is written
/// also where errors are found; the result is `Err` if and only if at least
/// one error was found, and then it holds what was reported. What the chunk
/// held before is still there, at its place.
pub fn compile(source: &str, literals: &[u64], chunk: &mut Chunk) -> (r: Result<(), CompileError>)
    requires
        encode_utf8(source@).len() < u32::MAX,
        old(chunk)@.wf(),
    ensures
        final(chunk)@.wf(),
        final(chunk)@ == compiled(encode_utf8(source@), literals@, old(chunk)@).chunk,
        final(chunk)@.code.take(old(chunk)@.code.len() as int) == old(chunk)@.code,
        final(chunk)@.lines.take(old(chunk)@.code.len() as int) == old(chunk)@.lines,
        final(chunk)@.constants.take(old(chunk)@.constants.len() as int) == old(
            chunk,
        )@.constants,
        final(chunk)@.code.len() > old(chunk)@.code.len(),
        final(chunk)@.code.last() == crate::chunk::Opcode::Return.byte(),
        r is Err <==> compiled(encode_utf8(source@), literals@, old(chunk)@).had_error,
        match r {
            Ok(_) => true,
            Err(error) => diagnostic_views(error.diagnostics@) == compiled(
                encode_utf8(source@),
                literals@,
                old(chunk)@,
            ).diagnostics,
        },
{
    proof {
        vstd::utf8::encode_utf8_valid_utf8(source@);
        crate::compiler::induction::compiling_keeps_the_chunk(
            encode_utf8(source@),
            literals@,
            old(chunk)@,
        );
    }
    let scanner = Scanner::new(source);
    let mut taken = Chunk::default();
    core::mem::swap(chunk, &mut taken);
    let mut parser = Parser::new(scanner, literals, taken);
    parser.advance();
    parser.program();
    parser.end_compiler();
    proof {
        reveal(ParserView::wf);
    }
    let (written, had_error, diagnostics) = parser.finish();
    *chunk = written;
    if had_error {
        Err(CompileError { diagnostics })
    } else {
        Ok(())
    }
}

} // verus!
