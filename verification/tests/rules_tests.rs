use clox::compiler::expressions::get_rule;
use clox::compiler::model::{ParseFn, Precedence};
use clox::scanner::TokenType;

#[test]
fn precedences_climb_one_step_at_a_time() {
    let ladder = [
        Precedence::Lowest,
        Precedence::Assignment,
        Precedence::Or,
        Precedence::And,
        Precedence::Equality,
        Precedence::Comparison,
        Precedence::Term,
        Precedence::Factor,
        Precedence::Unary,
        Precedence::Call,
        Precedence::Primary,
    ];
    for (level, precedence) in ladder.iter().enumerate() {
        assert_eq!(precedence.rank() as usize, level);
        if level + 1 < ladder.len() {
            assert_eq!(precedence.next(), ladder[level + 1]);
        }
    }
}

#[test]
fn minus_is_both_prefix_and_infix() {
    let rule = get_rule(TokenType::Minus);
    assert_eq!(rule.prefix, Some(ParseFn::Unary));
    assert_eq!(rule.infix, Some(ParseFn::Binary));
    assert_eq!(rule.precedence, Precedence::Term);
}

#[test]
fn each_operator_has_its_precedence() {
    let expected = [
        (TokenType::Plus, Precedence::Term),
        (TokenType::Slash, Precedence::Factor),
        (TokenType::Star, Precedence::Factor),
        (TokenType::BangEqual, Precedence::Equality),
        (TokenType::EqualEqual, Precedence::Equality),
        (TokenType::Greater, Precedence::Comparison),
        (TokenType::GreaterEqual, Precedence::Comparison),
        (TokenType::Less, Precedence::Comparison),
        (TokenType::LessEqual, Precedence::Comparison),
    ];
    for (kind, precedence) in expected {
        let rule = get_rule(kind);
        assert_eq!(rule.prefix, None);
        assert_eq!(rule.infix, Some(ParseFn::Binary));
        assert_eq!(rule.precedence, precedence);
    }
    assert_eq!(get_rule(TokenType::And).infix, Some(ParseFn::And));
    assert_eq!(get_rule(TokenType::And).precedence, Precedence::And);
    assert_eq!(get_rule(TokenType::Or).infix, Some(ParseFn::Or));
    assert_eq!(get_rule(TokenType::Or).precedence, Precedence::Or);
}

#[test]
fn literals_and_names_begin_expressions() {
    let expected = [
        (TokenType::LeftParen, ParseFn::Grouping),
        (TokenType::Bang, ParseFn::Unary),
        (TokenType::Identifier, ParseFn::Variable),
        (TokenType::String, ParseFn::String),
        (TokenType::Number, ParseFn::Number),
        (TokenType::False, ParseFn::Literal),
        (TokenType::Nil, ParseFn::Literal),
        (TokenType::True, ParseFn::Literal),
    ];
    for (kind, routine) in expected {
        let rule = get_rule(kind);
        assert_eq!(rule.prefix, Some(routine));
        assert_eq!(rule.infix, None);
        assert_eq!(rule.precedence, Precedence::Lowest);
    }
    for kind in [TokenType::Semicolon, TokenType::Eof, TokenType::Error, TokenType::Equal, TokenType::Var] {
        let rule = get_rule(kind);
        assert_eq!(rule.prefix, None);
        assert_eq!(rule.infix, None);
        assert_eq!(rule.precedence, Precedence::Lowest);
    }
}
