use clox::scanner::{is_ident_start, number_literals, Scanner, Token, TokenType};

fn tokens(source: &str) -> Vec<(TokenType, String, u32)> {
    let mut scanner = Scanner::new(source);
    let mut out = Vec::new();
    loop {
        let Token { kind, lexeme, line } = scanner.scan_token();
        out.push((kind, String::from(lexeme), line));
        if kind == TokenType::Eof {
            return out;
        }
    }
}

fn kinds(source: &str) -> Vec<TokenType> {
    tokens(source).into_iter().map(|t| t.0).collect()
}

#[test]
fn punctuation_is_scanned_one_or_two_characters_at_a_time() {
    assert_eq!(
        kinds("(){};,.-+/*! != = == < <= > >="),
        vec![
            TokenType::LeftParen, TokenType::RightParen, TokenType::LeftBrace, TokenType::RightBrace,
            TokenType::Semicolon, TokenType::Comma, TokenType::Dot, TokenType::Minus, TokenType::Plus,
            TokenType::Slash, TokenType::Star, TokenType::Bang, TokenType::BangEqual, TokenType::Equal,
            TokenType::EqualEqual, TokenType::Less, TokenType::LessEqual, TokenType::Greater,
            TokenType::GreaterEqual, TokenType::Eof,
        ]
    );
}

#[test]
fn keywords_are_told_from_identifiers() {
    assert_eq!(
        kinds("and class else false for fun if nil or print return super this true var while"),
        vec![
            TokenType::And, TokenType::Class, TokenType::Else, TokenType::False, TokenType::For,
            TokenType::Fun, TokenType::If, TokenType::Nil, TokenType::Or, TokenType::Print,
            TokenType::Return, TokenType::Super, TokenType::This, TokenType::True, TokenType::Var,
            TokenType::While, TokenType::Eof,
        ]
    );
    assert_eq!(
        kinds("andy _and For f0r"),
        vec![TokenType::Identifier, TokenType::Identifier, TokenType::Identifier, TokenType::Identifier, TokenType::Eof]
    );
}

#[test]
fn lexemes_are_slices_of_the_source() {
    assert_eq!(
        tokens("var answer = 42.5;"),
        vec![
            (TokenType::Var, String::from("var"), 1),
            (TokenType::Identifier, String::from("answer"), 1),
            (TokenType::Equal, String::from("="), 1),
            (TokenType::Number, String::from("42.5"), 1),
            (TokenType::Semicolon, String::from(";"), 1),
            (TokenType::Eof, String::from(""), 1),
        ]
    );
}

#[test]
fn a_number_takes_a_dot_only_before_a_digit() {
    assert_eq!(
        tokens("1.5 2. .5"),
        vec![
            (TokenType::Number, String::from("1.5"), 1),
            (TokenType::Number, String::from("2"), 1),
            (TokenType::Dot, String::from("."), 1),
            (TokenType::Dot, String::from("."), 1),
            (TokenType::Number, String::from("5"), 1),
            (TokenType::Eof, String::from(""), 1),
        ]
    );
}

#[test]
fn strings_keep_their_quotes_and_may_span_lines() {
    assert_eq!(
        tokens("\"a\nb\" x"),
        vec![
            (TokenType::String, String::from("\"a\nb\""), 2),
            (TokenType::Identifier, String::from("x"), 2),
            (TokenType::Eof, String::from(""), 2),
        ]
    );
}

#[test]
fn an_unterminated_string_is_an_error_token() {
    assert_eq!(
        tokens("\"abc"),
        vec![
            (TokenType::Error, String::from("Unterminated string."), 1),
            (TokenType::Eof, String::from(""), 1),
        ]
    );
}

#[test]
fn an_unexpected_character_is_an_error_token() {
    assert_eq!(
        tokens("a # b"),
        vec![
            (TokenType::Identifier, String::from("a"), 1),
            (TokenType::Error, String::from("Unexpected character."), 1),
            (TokenType::Identifier, String::from("b"), 1),
            (TokenType::Eof, String::from(""), 1),
        ]
    );
}

#[test]
fn a_character_of_several_bytes_is_one_error_token() {
    assert_eq!(
        tokens("é€𝄞x"),
        vec![
            (TokenType::Error, String::from("Unexpected character."), 1),
            (TokenType::Error, String::from("Unexpected character."), 1),
            (TokenType::Error, String::from("Unexpected character."), 1),
            (TokenType::Identifier, String::from("x"), 1),
            (TokenType::Eof, String::from(""), 1),
        ]
    );
    assert_eq!(
        tokens("\"é€𝄞\" // ü\nx"),
        vec![
            (TokenType::String, String::from("\"é€𝄞\""), 1),
            (TokenType::Identifier, String::from("x"), 2),
            (TokenType::Eof, String::from(""), 2),
        ]
    );
}

#[test]
fn comments_and_blanks_are_skipped_and_lines_counted() {
    assert_eq!(
        tokens("// first\n\t a // second\r\n\n/ b"),
        vec![
            (TokenType::Identifier, String::from("a"), 2),
            (TokenType::Slash, String::from("/"), 4),
            (TokenType::Identifier, String::from("b"), 4),
            (TokenType::Eof, String::from(""), 4),
        ]
    );
}

#[test]
fn eof_is_given_again_and_again() {
    let mut scanner = Scanner::new(" ");
    assert_eq!(scanner.scan_token().kind, TokenType::Eof);
    assert_eq!(scanner.scan_token().kind, TokenType::Eof);
    let mut scanner = Scanner::new("");
    assert_eq!(scanner.scan_token().kind, TokenType::Eof);
}

#[test]
fn identifiers_start_with_a_letter_or_underscore() {
    assert!(is_ident_start(b'a'));
    assert!(is_ident_start(b'Z'));
    assert!(is_ident_start(b'_'));
    assert!(!is_ident_start(b'0'));
    assert!(!is_ident_start(b'-'));
    assert!(!is_ident_start(0xc3));
}

#[test]
fn number_literals_are_listed_in_order() {
    assert_eq!(number_literals("print 1 + 2.5 * x3; // 4\n\"5\" 6"), vec!["1", "2.5", "6"]);
    assert!(number_literals("print nil;").is_empty());
}
