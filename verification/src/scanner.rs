//! The scanner: source text in, one token at a time out.
//!
//! What a token is, is stated over the bytes of the source; the scanner walks
//! them with two offsets and a line counter.

use vstd::prelude::*;
use vstd::utf8::{
    decode_utf8, encode_utf8, is_char_boundary, is_continuation_byte, length_of_first_scalar,
    pop_first_scalar, valid_utf8,
};
use crate::value::text_equal;

verus! {

/// The kinds of token.
#[derive(Debug, Clone, Copy, PartialEq, Eq, Structural)]
pub enum TokenType {
    // Single-character tokens.
    LeftParen,
    RightParen,
    LeftBrace,
    RightBrace,
    Comma,
    Dot,
    Minus,
    Plus,
    Semicolon,
    Slash,
    Star,
    // One or two character tokens.
    Bang,
    BangEqual,
    Equal,
    EqualEqual,
    Greater,
    GreaterEqual,
    Less,
    LessEqual,
    // Literals.
    Identifier,
    String,
    Number,
    // Keywords.
    And,
    Class,
    Else,
    False,
    For,
    Fun,
    If,
    Nil,
    Or,
    Print,
    Return,
    Super,
    This,
    True,
    Var,
    While,
    /// A piece of source that is no token; the lexeme is a message.
    Error,
    /// The end of the source.
    Eof,
}

/// A token: its kind, its text, and the line on which it ends.
#[derive(Clone, Copy)]
pub struct Token<'s> {
    pub kind: TokenType,
    pub lexeme: &'s str,
    pub line: u32,
}

/// What a [`Token`] holds.
pub struct TokenView {
    pub kind: TokenType,
    pub lexeme: Seq<char>,
    pub line: u32,
}

impl<'s> View for Token<'s> {
    type V = TokenView;

    open spec fn view(&self) -> TokenView {
        TokenView { kind: self.kind, lexeme: self.lexeme@, line: self.line }
    }
}

/// The state of a [`Scanner`].
pub struct ScannerView {
    /// The bytes of the source.
    pub source: Seq<u8>,
    /// Where the token being scanned begins.
    pub start: int,
    /// The next byte to read.
    pub current: int,
    /// The line of the next byte, counted from 1.
    pub line: int,
}

/// The byte at `i`, or 0 past the end.
pub open spec fn byte_at(source: Seq<u8>, i: int) -> u8 {
    if 0 <= i < source.len() {
        source[i]
    } else {
        0
    }
}

/// Whether `b` is an ASCII digit.
pub open spec fn digit(b: u8) -> bool {
    0x30 <= b <= 0x39
}

/// Whether `b` can begin an identifier: an ASCII letter or `_`.
pub open spec fn ident_start(b: u8) -> bool {
    (0x61 <= b <= 0x7a) || (0x41 <= b <= 0x5a) || b == 0x5f
}

/// Sets of bytes that the scanner reads through in one sweep.
pub enum ByteClass {
    /// ASCII digits.
    Digit,
    /// ASCII letters, digits and `_`.
    IdentPart,
    /// Every byte but `"`.
    InString,
    /// Every byte but a line feed.
    InComment,
    /// The bytes that continue a character of more than one byte.
    Continuation,
}

impl ByteClass {
    /// Whether the class has `b` in it.
    pub open spec fn has(self, b: u8) -> bool {
        match self {
            ByteClass::Digit => digit(b),
            ByteClass::IdentPart => ident_start(b) || digit(b),
            ByteClass::InString => b != 0x22,
            ByteClass::InComment => b != 0x0a,
            ByteClass::Continuation => is_continuation_byte(b),
        }
    }
}

/// The first offset from `from` on whose byte is not in `class`, or the end
/// of the source.
pub open spec fn run_end(source: Seq<u8>, from: int, class: ByteClass) -> int
    decreases source.len() - from,
{
    if 0 <= from < source.len() && class.has(source[from]) {
        run_end(source, from + 1, class)
    } else {
        from
    }
}

/// How many line feeds there are from `from` up to `to`.
pub open spec fn line_feeds(source: Seq<u8>, from: int, to: int) -> int
    decreases to - from,
{
    if from < to {
        line_feeds(source, from, to - 1) + if byte_at(source, to - 1) == 0x0a {
            1int
        } else {
            0int
        }
    } else {
        0
    }
}

/// Where the next token begins when reading starts at `pos` on line `line`,
/// and on which line: blanks and `//` comments are passed over, and each line
/// feed counts one line.
pub open spec fn after_blanks(source: Seq<u8>, pos: int, line: int) -> (int, int)
    decreases source.len() - pos,
{
    if 0 <= pos < source.len() {
        let c = source[pos];
        if c == 0x20 || c == 0x0d || c == 0x09 {
            after_blanks(source, pos + 1, line)
        } else if c == 0x0a {
            after_blanks(source, pos + 1, line + 1)
        } else if c == 0x2f && byte_at(source, pos + 1) == 0x2f {
            let end = run_end(source, pos, ByteClass::InComment);
            if pos < end <= source.len() {
                after_blanks(source, end, line)
            } else {
                (pos, line)
            }
        } else {
            (pos, line)
        }
    } else {
        (pos, line)
    }
}

/// The kind of an identifier-shaped lexeme: a keyword's kind if it spells
/// one, else `Identifier`.
pub open spec fn word_kind(text: Seq<char>) -> TokenType {
    if text == "and"@ {
        TokenType::And
    } else if text == "class"@ {
        TokenType::Class
    } else if text == "else"@ {
        TokenType::Else
    } else if text == "false"@ {
        TokenType::False
    } else if text == "for"@ {
        TokenType::For
    } else if text == "fun"@ {
        TokenType::Fun
    } else if text == "if"@ {
        TokenType::If
    } else if text == "nil"@ {
        TokenType::Nil
    } else if text == "or"@ {
        TokenType::Or
    } else if text == "print"@ {
        TokenType::Print
    } else if text == "return"@ {
        TokenType::Return
    } else if text == "super"@ {
        TokenType::Super
    } else if text == "this"@ {
        TokenType::This
    } else if text == "true"@ {
        TokenType::True
    } else if text == "var"@ {
        TokenType::Var
    } else if text == "while"@ {
        TokenType::While
    } else {
        TokenType::Identifier
    }
}

/// The kind of the token that the punctuation byte `c` begins when `next`
/// follows it, and how many bytes the token has. `None` if `c` begins none.
pub open spec fn punctuation(c: u8, next: u8) -> Option<(TokenType, int)> {
    if c == 0x28 {
        Some((TokenType::LeftParen, 1))
    } else if c == 0x29 {
        Some((TokenType::RightParen, 1))
    } else if c == 0x7b {
        Some((TokenType::LeftBrace, 1))
    } else if c == 0x7d {
        Some((TokenType::RightBrace, 1))
    } else if c == 0x3b {
        Some((TokenType::Semicolon, 1))
    } else if c == 0x2c {
        Some((TokenType::Comma, 1))
    } else if c == 0x2e {
        Some((TokenType::Dot, 1))
    } else if c == 0x2d {
        Some((TokenType::Minus, 1))
    } else if c == 0x2b {
        Some((TokenType::Plus, 1))
    } else if c == 0x2f {
        Some((TokenType::Slash, 1))
    } else if c == 0x2a {
        Some((TokenType::Star, 1))
    } else if c == 0x21 {
        if next == 0x3d {
            Some((TokenType::BangEqual, 2))
        } else {
            Some((TokenType::Bang, 1))
        }
    } else if c == 0x3d {
        if next == 0x3d {
            Some((TokenType::EqualEqual, 2))
        } else {
            Some((TokenType::Equal, 1))
        }
    } else if c == 0x3c {
        if next == 0x3d {
            Some((TokenType::LessEqual, 2))
        } else {
            Some((TokenType::Less, 1))
        }
    } else if c == 0x3e {
        if next == 0x3d {
            Some((TokenType::GreaterEqual, 2))
        } else {
            Some((TokenType::Greater, 1))
        }
    } else {
        None
    }
}

/// Where the number that begins at `start` ends: after its digits, and after
/// a `.` with the digits behind it if at least one digit follows the `.`.
pub open spec fn number_end(source: Seq<u8>, start: int) -> int {
    let whole = run_end(source, start + 1, ByteClass::Digit);
    if byte_at(source, whole) == 0x2e && digit(byte_at(source, whole + 1)) {
        run_end(source, whole + 1, ByteClass::Digit)
    } else {
        whole
    }
}

/// What the scanner finds at `start`, where a token begins.
pub struct Lexeme {
    /// The token's kind.
    pub kind: TokenType,
    /// Where reading goes on after the token.
    pub end: int,
    /// How many line feeds the token holds.
    pub lines: int,
}

/// The token that begins at `start`, an offset inside the source.
pub open spec fn lexeme_at(source: Seq<u8>, start: int) -> Lexeme {
    let c = source[start];
    if ident_start(c) {
        let end = run_end(source, start + 1, ByteClass::IdentPart);
        Lexeme { kind: word_kind(decode_utf8(source.subrange(start, end))), end, lines: 0 }
    } else if digit(c) {
        Lexeme { kind: TokenType::Number, end: number_end(source, start), lines: 0 }
    } else if c == 0x22 {
        let close = run_end(source, start + 1, ByteClass::InString);
        if close >= source.len() {
            Lexeme { kind: TokenType::Error, end: close, lines: line_feeds(source, start + 1, close) }
        } else {
            Lexeme {
                kind: TokenType::String,
                end: close + 1,
                lines: line_feeds(source, start + 1, close),
            }
        }
    } else {
        match punctuation(c, byte_at(source, start + 1)) {
            Some((kind, len)) => Lexeme { kind, end: start + len, lines: 0 },
            None => Lexeme {
                kind: TokenType::Error,
                end: run_end(source, start + 1, ByteClass::Continuation),
                lines: 0,
            },
        }
    }
}

/// The text of an error token: what was wrong at `start`.
pub open spec fn error_message(source: Seq<u8>, start: int) -> Seq<char> {
    if source[start] == 0x22 {
        "Unterminated string."@
    } else {
        "Unexpected character."@
    }
}

impl ScannerView {
    /// The line on which the next token begins.
    pub open spec fn line_after_blanks(self) -> int {
        after_blanks(self.source, self.current, self.line).1
    }

    /// The offsets lie in the source in order, on character boundaries, and
    /// the line counter cannot overflow.
    pub open spec fn wf(self) -> bool {
        &&& valid_utf8(self.source)
        &&& self.source.len() < u32::MAX
        &&& 0 <= self.start <= self.current <= self.source.len()
        &&& 1 <= self.line <= self.current + 1
        &&& starts_char(self.source, self.current)
    }

    /// Whether `next` is a state further on in the same source.
    pub open spec fn reaches(self, next: ScannerView) -> bool {
        next.source == self.source && self.current < next.current <= self.source.len()
    }

    /// The scanner at the beginning of `source`.
    pub open spec fn begin(source: Seq<u8>) -> ScannerView {
        ScannerView { source, start: 0, current: 0, line: 1 }
    }

    /// The token that begins at `start`, read on line `line`, and the
    /// scanner's state after it.
    pub open spec fn token_at(self, start: int, line: int) -> (ScannerView, TokenView) {
        let found = lexeme_at(self.source, start);
        let line = line + found.lines;
        (
            ScannerView { start, current: found.end, line, ..self },
            TokenView {
                kind: found.kind,
                lexeme: if found.kind == TokenType::Error {
                    error_message(self.source, start)
                } else {
                    decode_utf8(self.source.subrange(start, found.end))
                },
                line: line as u32,
            },
        )
    }

    /// The next token and the scanner's state after it. At the end of the
    /// source the token is `Eof`, as often as it is asked for.
    #[verifier::opaque]
    pub open spec fn next(self) -> (ScannerView, TokenView) {
        let (start, line) = after_blanks(self.source, self.current, self.line);
        if start >= self.source.len() {
            (
                ScannerView { start, current: start, line, ..self },
                TokenView { kind: TokenType::Eof, lexeme: Seq::empty(), line: line as u32 },
            )
        } else {
            self.token_at(start, line)
        }
    }
}

/// Whether `text` has a `"` as its first and as its last byte, as the lexeme
/// of a string literal does.
pub open spec fn quoted(text: Seq<char>) -> bool {
    let bytes = encode_utf8(text);
    bytes.len() >= 2 && bytes[0] == 0x22 && bytes.last() == 0x22
}

/// Whether a character begins at `pos`, or the source ends there.
pub open spec fn starts_char(source: Seq<u8>, pos: int) -> bool {
    pos == source.len() || (0 <= pos < source.len() && !is_continuation_byte(source[pos]))
}

/// A sweep ends inside the source, behind where it began; every byte it
/// passed is in the class, and the byte it stopped at is not.
pub proof fn run_end_bounds(source: Seq<u8>, from: int, class: ByteClass)
    requires
        0 <= from <= source.len(),
    ensures
        from <= run_end(source, from, class) <= source.len(),
        forall|i: int| from <= i < run_end(source, from, class) ==> class.has(#[trigger] source[i]),
        !class.has(byte_at(source, run_end(source, from, class))) || run_end(source, from, class)
            == source.len(),
    decreases source.len() - from,
{
    if from < source.len() && class.has(source[from]) {
        run_end_bounds(source, from + 1, class);
    }
}

/// In valid UTF-8 a character begins behind every ASCII byte.
pub proof fn char_starts_after_ascii(source: Seq<u8>, i: int)
    requires
        valid_utf8(source),
        0 <= i < source.len(),
        source[i] <= 0x7f,
    ensures
        starts_char(source, i + 1),
{
    vstd::utf8::is_char_boundary_iff_not_is_continuation_byte(source, i);
    boundary_after_ascii(source, i);
    if i + 1 < source.len() {
        vstd::utf8::is_char_boundary_iff_not_is_continuation_byte(source, i + 1);
    }
}

proof fn boundary_after_ascii(bytes: Seq<u8>, i: int)
    requires
        valid_utf8(bytes),
        0 <= i < bytes.len(),
        bytes[i] <= 0x7f,
        is_char_boundary(bytes, i),
    ensures
        is_char_boundary(bytes, i + 1),
    decreases bytes.len(),
{
    let rest = pop_first_scalar(bytes);
    let width = length_of_first_scalar(bytes);
    reveal_with_fuel(is_char_boundary, 2);
    if i > 0 {
        assert(is_char_boundary(rest, i - width));
        assert(rest[i - width] == bytes[i]);
        boundary_after_ascii(rest, i - width);
    }
}

/// Where a character begins, the text can be cut.
pub proof fn cut_at_char_start(bytes: Seq<u8>, pos: int)
    requires
        valid_utf8(bytes),
        starts_char(bytes, pos),
    ensures
        is_char_boundary(bytes, pos),
{
    if pos < bytes.len() {
        vstd::utf8::is_char_boundary_iff_not_is_continuation_byte(bytes, pos);
    } else {
        vstd::utf8::is_char_boundary_start_end_of_seq(bytes);
    }
}

/// A piece of valid UTF-8 cut out at two places where characters begin is
/// valid UTF-8.
pub proof fn slice_is_valid(source: Seq<u8>, from: int, to: int)
    requires
        valid_utf8(source),
        0 <= from <= to <= source.len(),
        starts_char(source, from),
        starts_char(source, to),
    ensures
        valid_utf8(source.subrange(from, to)),
        encode_utf8(decode_utf8(source.subrange(from, to))) == source.subrange(from, to),
{
    cut_at_char_start(source, to);
    vstd::utf8::valid_utf8_split(source, to);
    let head = source.subrange(0, to);
    if from < to {
        vstd::utf8::is_char_boundary_iff_not_is_continuation_byte(head, from);
    } else {
        vstd::utf8::is_char_boundary_start_end_of_seq(head);
    }
    vstd::utf8::valid_utf8_split(head, from);
    assert(head.subrange(from, to) =~= source.subrange(from, to));
    vstd::utf8::decode_utf8_encode_utf8(source.subrange(from, to));
}

/// There are no more line feeds in a stretch than bytes.
pub proof fn line_feeds_bound(source: Seq<u8>, from: int, to: int)
    requires
        from <= to,
    ensures
        0 <= line_feeds(source, from, to) <= to - from,
    decreases to - from,
{
    if from < to {
        line_feeds_bound(source, from, to - 1);
    }
}

/// Passing over blanks and comments ends where a character begins, inside
/// the source and not before it started, and counts no more lines than
/// bytes.
pub proof fn after_blanks_bounds(source: Seq<u8>, pos: int, line: int)
    requires
        valid_utf8(source),
        0 <= pos <= source.len(),
        starts_char(source, pos),
    ensures
        pos <= after_blanks(source, pos, line).0 <= source.len(),
        starts_char(source, after_blanks(source, pos, line).0),
        line <= after_blanks(source, pos, line).1,
        after_blanks(source, pos, line).1 - line <= after_blanks(source, pos, line).0 - pos,
    decreases source.len() - pos,
{
    if pos < source.len() {
        let c = source[pos];
        if c == 0x20 || c == 0x0d || c == 0x09 {
            char_starts_after_ascii(source, pos);
            after_blanks_bounds(source, pos + 1, line);
        } else if c == 0x0a {
            char_starts_after_ascii(source, pos);
            after_blanks_bounds(source, pos + 1, line + 1);
        } else if c == 0x2f && byte_at(source, pos + 1) == 0x2f {
            let end = run_end(source, pos, ByteClass::InComment);
            run_end_bounds(source, pos, ByteClass::InComment);
            run_end_bounds(source, pos + 1, ByteClass::InComment);
            if pos < end <= source.len() {
                after_blanks_bounds(source, end, line);
            }
        }
    }
}

/// A token has at least one byte, ends inside the source where a character
/// begins, and holds no more line feeds than bytes. A string token begins
/// and ends with a quote.
pub proof fn lexeme_bounds(source: Seq<u8>, start: int)
    requires
        valid_utf8(source),
        0 <= start < source.len(),
        starts_char(source, start),
    ensures
        start < lexeme_at(source, start).end <= source.len(),
        starts_char(source, lexeme_at(source, start).end),
        0 <= lexeme_at(source, start).lines < lexeme_at(source, start).end - start,
        lexeme_at(source, start).kind != TokenType::Eof,
        lexeme_at(source, start).kind == TokenType::String ==> {
            &&& start + 2 <= lexeme_at(source, start).end
            &&& source[start] == 0x22
            &&& source[lexeme_at(source, start).end - 1] == 0x22
        },
{
    let c = source[start];
    let found = lexeme_at(source, start);
    if ident_start(c) {
        run_end_bounds(source, start + 1, ByteClass::IdentPart);
        char_starts_after_ascii(source, found.end - 1);
    } else if digit(c) {
        let whole = run_end(source, start + 1, ByteClass::Digit);
        run_end_bounds(source, start + 1, ByteClass::Digit);
        if byte_at(source, whole) == 0x2e && digit(byte_at(source, whole + 1)) {
            run_end_bounds(source, whole + 1, ByteClass::Digit);
            run_end_bounds(source, whole + 2, ByteClass::Digit);
        }
        char_starts_after_ascii(source, found.end - 1);
    } else if c == 0x22 {
        let close = run_end(source, start + 1, ByteClass::InString);
        run_end_bounds(source, start + 1, ByteClass::InString);
        line_feeds_bound(source, start + 1, close);
        if close < source.len() {
            char_starts_after_ascii(source, close);
        }
    } else {
        match punctuation(c, byte_at(source, start + 1)) {
            Some((kind, len)) => {
                char_starts_after_ascii(source, start + len - 1);
            },
            None => {
                run_end_bounds(source, start + 1, ByteClass::Continuation);
            },
        }
    }
}

/// Scanning a token from a well-formed state gives a well-formed state in
/// the same source. Unless the token is `Eof`, it has at least one byte, so
/// the scanner has moved on; at `Eof` the scanner stands at the end. The
/// lexeme of a string token stands in quotes.
pub proof fn next_moves_on(scanner: ScannerView)
    requires
        scanner.wf(),
    ensures
        scanner.next().0.wf(),
        scanner.next().0.source == scanner.source,
        scanner.current <= scanner.next().0.start <= scanner.next().0.current,
        scanner.next().1.kind != TokenType::Eof ==> scanner.reaches(scanner.next().0)
            && scanner.next().0.start < scanner.next().0.current,
        scanner.next().1.kind == TokenType::Eof ==> scanner.next().0.current
            == scanner.source.len(),
        scanner.next().1.kind == TokenType::String ==> quoted(scanner.next().1.lexeme),
{
    reveal(ScannerView::next);
    let source = scanner.source;
    after_blanks_bounds(source, scanner.current, scanner.line);
    let (start, line) = after_blanks(source, scanner.current, scanner.line);
    if start < source.len() {
        lexeme_bounds(source, start);
        let found = lexeme_at(source, start);
        if found.kind == TokenType::String {
            slice_is_valid(source, start, found.end);
            let piece = source.subrange(start, found.end);
            assert(piece[0] == source[start]);
            assert(piece.last() == source[found.end - 1]);
        }
    }
}

/// Reads source text one token at a time.
pub struct Scanner<'s> {
    source: &'s str,
    start: usize,
    current: usize,
    line: u32,
}

impl<'s> View for Scanner<'s> {
    type V = ScannerView;

    closed spec fn view(&self) -> ScannerView {
        ScannerView {
            source: encode_utf8(self.source@),
            start: self.start as int,
            current: self.current as int,
            line: self.line as int,
        }
    }
}

/// Whether `c` can begin an identifier.
pub fn is_ident_start(c: u8) -> (r: bool)
    ensures
        r == ident_start(c),
{
    (0x61 <= c && c <= 0x7a) || (0x41 <= c && c <= 0x5a) || c == 0x5f
}

/// Whether `c` is an ASCII digit.
pub fn is_digit(c: u8) -> (r: bool)
    ensures
        r == digit(c),
{
    0x30 <= c && c <= 0x39
}

impl<'s> Scanner<'s> {
    /// The scanner's invariant between tokens.
    pub open spec fn wf(&self) -> bool {
        self@.wf()
    }

    /// The invariant inside a token, where `current` may stand in the middle
    /// of a character.
    spec fn bounded(&self) -> bool {
        &&& valid_utf8(self@.source)
        &&& self@.source.len() < u32::MAX
        &&& 0 <= self@.start <= self@.current <= self@.source.len()
        &&& 1 <= self@.line <= self@.current + 1
    }

    /// A scanner at the beginning of `source`, on line 1.
    pub fn new(source: &'s str) -> (r: Self)
        requires
            encode_utf8(source@).len() < u32::MAX,
        ensures
            r@ == ScannerView::begin(encode_utf8(source@)),
            r.wf(),
    {
        proof {
            vstd::utf8::encode_utf8_valid_utf8(source@);
            vstd::utf8::is_char_boundary_start_end_of_seq(encode_utf8(source@));
            if encode_utf8(source@).len() > 0 {
                vstd::utf8::is_char_boundary_iff_not_is_continuation_byte(encode_utf8(source@), 0);
            }
        }
        Scanner { source, start: 0, current: 0, line: 1 }
    }

    fn is_at_end(&self) -> (r: bool)
        requires
            self.bounded(),
        ensures
            r == (self@.current == self@.source.len()),
    {
        self.source.as_bytes().len() == self.current
    }

    fn peek(&self) -> (b: u8)
        requires
            self.bounded(),
        ensures
            b == byte_at(self@.source, self@.current),
    {
        let bytes = self.source.as_bytes();
        if self.current < bytes.len() {
            bytes[self.current]
        } else {
            0
        }
    }

    fn peek_next(&self) -> (b: u8)
        requires
            self.bounded(),
        ensures
            b == byte_at(self@.source, self@.current + 1),
    {
        let bytes = self.source.as_bytes();
        if self.current < bytes.len() && self.current + 1 < bytes.len() {
            bytes[self.current + 1]
        } else {
            0
        }
    }

    fn advance(&mut self) -> (b: u8)
        requires
            old(self).bounded(),
            old(self)@.current < old(self)@.source.len(),
        ensures
            final(self).bounded(),
            final(self)@ == (ScannerView { current: old(self)@.current + 1, ..old(self)@ }),
            b == old(self)@.source[old(self)@.current],
    {
        let b = self.source.as_bytes()[self.current];
        self.current += 1;
        b
    }

    fn matches(&mut self, expected: u8) -> (r: bool)
        requires
            old(self).bounded(),
            expected != 0,
        ensures
            final(self).bounded(),
            r == (byte_at(old(self)@.source, old(self)@.current) == expected),
            final(self)@ == (ScannerView {
                current: if r {
                    old(self)@.current + 1
                } else {
                    old(self)@.current
                },
                ..old(self)@
            }),
    {
        if self.is_at_end() {
            return false;
        }
        if self.peek() != expected {
            return false;
        }
        self.advance();
        true
    }

    fn make_token(&self, kind: TokenType) -> (t: Token<'s>)
        requires
            self.bounded(),
            starts_char(self@.source, self@.start),
            starts_char(self@.source, self@.current),
        ensures
            t@ == (TokenView {
                kind,
                lexeme: decode_utf8(self@.source.subrange(self@.start, self@.current)),
                line: self.line,
            }),
            encode_utf8(t@.lexeme) == self@.source.subrange(self@.start, self@.current),
    {
        let ghost bytes = self@.source;
        proof {
            cut_at_char_start(bytes, self@.current);
        }
        let (head, _) = self.source.split_at(self.current);
        proof {
            vstd::utf8::encode_utf8_valid_utf8(head@);
            assert(encode_utf8(head@) =~= bytes.subrange(0, self@.current));
            cut_at_char_start(encode_utf8(head@), self@.start);
        }
        let (_, lexeme) = head.split_at(self.start);
        proof {
            vstd::utf8::encode_utf8_decode_utf8(lexeme@);
            assert(encode_utf8(lexeme@) =~= bytes.subrange(self@.start, self@.current));
        }
        Token { kind, lexeme, line: self.line }
    }

    fn error_token(&self, message: &'static str) -> (t: Token<'static>)
        ensures
            t@ == (TokenView { kind: TokenType::Error, lexeme: message@, line: self.line }),
    {
        Token { kind: TokenType::Error, lexeme: message, line: self.line }
    }

    fn skip_whitespace(&mut self)
        requires
            old(self).bounded(),
            starts_char(old(self)@.source, old(self)@.current),
        ensures
            final(self).bounded(),
            starts_char(final(self)@.source, final(self)@.current),
            final(self)@.source == old(self)@.source,
            final(self)@.start == old(self)@.start,
            old(self)@.current <= final(self)@.current,
            (final(self)@.current, final(self)@.line) == after_blanks(
                old(self)@.source,
                old(self)@.current,
                old(self)@.line,
            ),
    {
        let ghost source = self@.source;
        loop
            invariant
                self.bounded(),
                starts_char(source, self@.current),
                self@.source == source,
                source == old(self)@.source,
                self@.start == old(self)@.start,
                old(self)@.current <= self@.current,
                after_blanks(source, self@.current, self@.line) == after_blanks(
                    source,
                    old(self)@.current,
                    old(self)@.line,
                ),
            decreases source.len() - self@.current,
        {
            let c = self.peek();
            if c == 0x20 || c == 0x0d || c == 0x09 {
                proof {
                    char_starts_after_ascii(source, self@.current);
                }
                self.advance();
            } else if c == 0x0a {
                proof {
                    char_starts_after_ascii(source, self@.current);
                }
                self.advance();
                self.line += 1;
            } else if c == 0x2f {
                if self.peek_next() == 0x2f {
                    let ghost begin = self@.current;
                    let ghost line = self@.line;
                    proof {
                        run_end_bounds(source, begin, ByteClass::InComment);
                        run_end_bounds(source, begin + 1, ByteClass::InComment);
                    }
                    while self.peek() != 0x0a && !self.is_at_end()
                        invariant
                            self.bounded(),
                            self@.source == source,
                            source == old(self)@.source,
                            self@.start == old(self)@.start,
                            begin <= self@.current,
                            self@.line == line <= begin + 1,
                            0 <= begin < source.len(),
                            old(self)@.current <= begin,
                            source[begin] == 0x2f && byte_at(source, begin + 1) == 0x2f,
                            begin < run_end(source, begin, ByteClass::InComment) <= source.len(),
                            after_blanks(source, begin, line) == after_blanks(
                                source,
                                old(self)@.current,
                                old(self)@.line,
                            ),
                            run_end(source, self@.current, ByteClass::InComment) == run_end(
                                source,
                                begin,
                                ByteClass::InComment,
                            ),
                        decreases source.len() - self@.current,
                    {
                        self.advance();
                    }
                    assert(self@.current == run_end(source, begin, ByteClass::InComment));
                } else {
                    return ;
                }
            } else {
                return ;
            }
        }
    }

    fn string(&mut self) -> (t: Token<'s>)
        requires
            old(self).bounded(),
            old(self)@.current == old(self)@.start + 1,
            old(self)@.source[old(self)@.start] == 0x22,
            old(self)@.line <= old(self)@.start + 1,
        ensures
            final(self)@.wf(),
            (final(self)@, t@) == old(self)@.token_at(old(self)@.start, old(self)@.line),
            old(self)@.current <= final(self)@.current,
            t@.kind == TokenType::String ==> quoted(t@.lexeme),
    {
        let ghost source = self@.source;
        let ghost start = self@.start;
        let ghost line = self@.line;
        proof {
            run_end_bounds(source, start + 1, ByteClass::InString);
        }
        while self.peek() != 0x22 && !self.is_at_end()
            invariant
                self.bounded(),
                self@.source == source,
                self@.start == start,
                start + 1 <= self@.current,
                self@.line == line + line_feeds(source, start + 1, self@.current),
                self@.line <= self@.current,
                run_end(source, self@.current, ByteClass::InString) == run_end(
                    source,
                    start + 1,
                    ByteClass::InString,
                ),
            decreases source.len() - self@.current,
        {
            let c = self.advance();
            if c == 0x0a {
                self.line += 1;
            }
        }
        if self.is_at_end() {
            return self.error_token("Unterminated string.");
        }
        proof {
            char_starts_after_ascii(source, self@.current);
            char_starts_after_ascii(source, start);
            cut_start(source, start);
        }
        self.advance();
        self.make_token(TokenType::String)
    }

    fn number(&mut self) -> (t: Token<'s>)
        requires
            old(self).bounded(),
            old(self)@.current == old(self)@.start + 1,
            digit(old(self)@.source[old(self)@.start]),
        ensures
            final(self)@.wf(),
            (final(self)@, t@) == old(self)@.token_at(old(self)@.start, old(self)@.line),
            old(self)@.current <= final(self)@.current,
            t@.kind != TokenType::String,
            t@.kind != TokenType::Eof,
    {
        let ghost source = self@.source;
        let ghost start = self@.start;
        proof {
            run_end_bounds(source, start + 1, ByteClass::Digit);
        }
        while is_digit(self.peek())
            invariant
                self.bounded(),
                self@.source == source,
                self@.start == start,
                self@.line == old(self)@.line,
                start + 1 <= self@.current,
                digit(source[self@.current - 1]),
                run_end(source, self@.current, ByteClass::Digit) == run_end(
                    source,
                    start + 1,
                    ByteClass::Digit,
                ),
            decreases source.len() - self@.current,
        {
            self.advance();
        }
        if self.peek() == 0x2e && is_digit(self.peek_next()) {
            let ghost whole = self@.current;
            proof {
                run_end_bounds(source, whole + 1, ByteClass::Digit);
            }
            self.advance();
            while is_digit(self.peek())
                invariant
                    self.bounded(),
                    self@.source == source,
                    self@.start == start,
                    self@.line == old(self)@.line,
                    whole + 1 <= self@.current,
                    whole + 1 < self@.current ==> digit(source[self@.current - 1]),
                    digit(byte_at(source, whole + 1)),
                    run_end(source, self@.current, ByteClass::Digit) == run_end(
                        source,
                        whole + 1,
                        ByteClass::Digit,
                    ),
                decreases source.len() - self@.current,
            {
                self.advance();
            }
        }
        proof {
            char_starts_after_ascii(source, self@.current - 1);
            cut_start(source, start);
        }
        self.make_token(TokenType::Number)
    }

    fn identifier(&mut self) -> (t: Token<'s>)
        requires
            old(self).bounded(),
            old(self)@.current == old(self)@.start + 1,
            ident_start(old(self)@.source[old(self)@.start]),
        ensures
            final(self)@.wf(),
            (final(self)@, t@) == old(self)@.token_at(old(self)@.start, old(self)@.line),
            old(self)@.current <= final(self)@.current,
            t@.kind != TokenType::String,
            t@.kind != TokenType::Eof,
    {
        let ghost source = self@.source;
        let ghost start = self@.start;
        proof {
            run_end_bounds(source, start + 1, ByteClass::IdentPart);
        }
        while is_ident_start(self.peek()) || is_digit(self.peek())
            invariant
                self.bounded(),
                self@.source == source,
                self@.start == start,
                self@.line == old(self)@.line,
                start + 1 <= self@.current,
                source[self@.current - 1] <= 0x7f,
                run_end(source, self@.current, ByteClass::IdentPart) == run_end(
                    source,
                    start + 1,
                    ByteClass::IdentPart,
                ),
            decreases source.len() - self@.current,
        {
            self.advance();
        }
        proof {
            char_starts_after_ascii(source, self@.current - 1);
            cut_start(source, start);
        }
        let kind = self.identifier_type();
        self.make_token(kind)
    }

    fn identifier_type(&self) -> (kind: TokenType)
        requires
            self.bounded(),
            starts_char(self@.source, self@.start),
            starts_char(self@.source, self@.current),
        ensures
            kind == word_kind(decode_utf8(self@.source.subrange(self@.start, self@.current))),
    {
        let word = self.make_token(TokenType::Identifier).lexeme;
        if text_equal(word, "and") {
            TokenType::And
        } else if text_equal(word, "class") {
            TokenType::Class
        } else if text_equal(word, "else") {
            TokenType::Else
        } else if text_equal(word, "false") {
            TokenType::False
        } else if text_equal(word, "for") {
            TokenType::For
        } else if text_equal(word, "fun") {
            TokenType::Fun
        } else if text_equal(word, "if") {
            TokenType::If
        } else if text_equal(word, "nil") {
            TokenType::Nil
        } else if text_equal(word, "or") {
            TokenType::Or
        } else if text_equal(word, "print") {
            TokenType::Print
        } else if text_equal(word, "return") {
            TokenType::Return
        } else if text_equal(word, "super") {
            TokenType::Super
        } else if text_equal(word, "this") {
            TokenType::This
        } else if text_equal(word, "true") {
            TokenType::True
        } else if text_equal(word, "var") {
            TokenType::Var
        } else if text_equal(word, "while") {
            TokenType::While
        } else {
            TokenType::Identifier
        }
    }

    /// Scans the next token. Blanks and comments before it are passed over;
    /// at the end of the source the token is `Eof`.
    pub fn scan_token(&mut self) -> (t: Token<'s>)
        requires
            old(self).wf(),
        ensures
            final(self).wf(),
            (final(self)@, t@) == old(self)@.next(),
            final(self)@.source == old(self)@.source,
            old(self)@.current <= final(self)@.current,
            t@.kind != TokenType::Eof ==> old(self)@.reaches(final(self)@),
            t@.kind == TokenType::Eof ==> final(self)@.current == final(self)@.source.len(),
            t@.kind == TokenType::String ==> quoted(t@.lexeme),
    {
        reveal(ScannerView::next);
        self.skip_whitespace();
        self.start = self.current;
        let ghost source = self@.source;
        let ghost start = self@.start;
        if self.is_at_end() {
            let t = self.make_token(TokenType::Eof);
            proof {
                assert(source.subrange(start, start) =~= Seq::<u8>::empty());
                assert(t@.lexeme =~= Seq::<char>::empty());
            }
            return t;
        }
        proof {
            cut_start(source, start);
        }
        let c = self.advance();
        if is_ident_start(c) {
            return self.identifier();
        }
        if is_digit(c) {
            return self.number();
        }
        if c == 0x22 {
            return self.string();
        }
        let ghost next = byte_at(source, start + 1);
        let kind = if c == 0x28 {
            Some(TokenType::LeftParen)
        } else if c == 0x29 {
            Some(TokenType::RightParen)
        } else if c == 0x7b {
            Some(TokenType::LeftBrace)
        } else if c == 0x7d {
            Some(TokenType::RightBrace)
        } else if c == 0x3b {
            Some(TokenType::Semicolon)
        } else if c == 0x2c {
            Some(TokenType::Comma)
        } else if c == 0x2e {
            Some(TokenType::Dot)
        } else if c == 0x2d {
            Some(TokenType::Minus)
        } else if c == 0x2b {
            Some(TokenType::Plus)
        } else if c == 0x2f {
            Some(TokenType::Slash)
        } else if c == 0x2a {
            Some(TokenType::Star)
        } else if c == 0x21 {
            if self.matches(0x3d) {
                Some(TokenType::BangEqual)
            } else {
                Some(TokenType::Bang)
            }
        } else if c == 0x3d {
            if self.matches(0x3d) {
                Some(TokenType::EqualEqual)
            } else {
                Some(TokenType::Equal)
            }
        } else if c == 0x3c {
            if self.matches(0x3d) {
                Some(TokenType::LessEqual)
            } else {
                Some(TokenType::Less)
            }
        } else if c == 0x3e {
            if self.matches(0x3d) {
                Some(TokenType::GreaterEqual)
            } else {
                Some(TokenType::Greater)
            }
        } else {
            None
        };
        match kind {
            Some(kind) => {
                proof {
                    assert(punctuation(c, next) == Some((kind, self@.current - start)));
                    char_starts_after_ascii(source, self@.current - 1);
                }
                self.make_token(kind)
            },
            None => {
                proof {
                    assert(punctuation(c, next) is None);
                    run_end_bounds(source, start + 1, ByteClass::Continuation);
                }
                while is_continuation(self.peek())
                    invariant
                        self.bounded(),
                        self@.source == source,
                        self@.start == start,
                        self@.line == old(self)@.line_after_blanks(),
                        start + 1 <= self@.current,
                        run_end(source, self@.current, ByteClass::Continuation) == run_end(
                            source,
                            start + 1,
                            ByteClass::Continuation,
                        ),
                    decreases source.len() - self@.current,
                {
                    self.advance();
                }
                self.error_token("Unexpected character.")
            },
        }
    }
}

fn is_continuation(b: u8) -> (r: bool)
    ensures
        r == is_continuation_byte(b),
{
    0x80 <= b && b <= 0xbf
}

/// A character begins where a byte that is no continuation byte stands.
proof fn cut_start(source: Seq<u8>, start: int)
    requires
        0 <= start < source.len(),
        source[start] <= 0x7f || starts_char(source, start),
    ensures
        starts_char(source, start),
{
}

/// The lexemes of the number tokens that the scanner has still to give, in
/// their order.
pub open spec fn number_lexemes(scanner: ScannerView) -> Seq<Seq<char>>
    decreases scanner.source.len() - scanner.current,
{
    let (next, token) = scanner.next();
    if token.kind != TokenType::Eof && scanner.reaches(next) {
        if token.kind == TokenType::Number {
            seq![token.lexeme] + number_lexemes(next)
        } else {
            number_lexemes(next)
        }
    } else {
        Seq::empty()
    }
}

/// What a sequence of texts holds.
pub open spec fn text_views(texts: Seq<&str>) -> Seq<Seq<char>> {
    texts.map_values(|t: &str| t@)
}

/// The lexemes of the number tokens of `source`, in their order: the
/// literals whose values a compilation of `source` is to be given.
pub fn number_literals<'s>(source: &'s str) -> (literals: Vec<&'s str>)
    requires
        encode_utf8(source@).len() < u32::MAX,
    ensures
        text_views(literals@) == number_lexemes(ScannerView::begin(encode_utf8(source@))),
{
    let mut scanner = Scanner::new(source);
    let mut literals: Vec<&'s str> = Vec::new();
    let ghost begin = scanner@;
    proof {
        assert(text_views(literals@) =~= Seq::<Seq<char>>::empty());
    }
    loop
        invariant
            scanner.wf(),
            text_views(literals@) + number_lexemes(scanner@) == number_lexemes(begin),
        ensures
            text_views(literals@) == number_lexemes(begin),
        decreases scanner@.source.len() - scanner@.current,
    {
        let ghost before = scanner@;
        let ghost found = text_views(literals@);
        let token = scanner.scan_token();
        if token.kind == TokenType::Eof {
            proof {
                assert(found + Seq::<Seq<char>>::empty() =~= found);
            }
            break ;
        }
        if token.kind == TokenType::Number {
            literals.push(token.lexeme);
            proof {
                assert(text_views(literals@) =~= found.push(token@.lexeme));
                assert(found + (seq![token@.lexeme] + number_lexemes(scanner@)) =~= found.push(
                    token@.lexeme,
                ) + number_lexemes(scanner@));
            }
        }
    }
    literals
}

} // verus!
