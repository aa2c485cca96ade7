use vector_expr::lexer::{chars_of, tokenize, ParseError, ParseErrorKind, Symbol, Token};
use vector_expr::syntax::{parse_syntax, Operator, Syntax};
use vector_expr::typing::{check_kind, Kind};

fn tokens(text: &str) -> Vec<Token> {
    tokenize(&chars_of(text)).unwrap()
}

fn symbols(text: &str) -> Vec<Symbol> {
    tokens(text).iter().map(|token| token.symbol).collect()
}

fn syntax(text: &str) -> Syntax {
    parse_syntax(&tokens(text), text.chars().count()).unwrap()
}

fn kind(text: &str) -> Result<Kind, ParseError> {
    let tokens = tokens(text);
    let syntax = parse_syntax(&tokens, text.chars().count()).unwrap();
    check_kind(&syntax, &tokens)
}

#[test]
fn characters_are_counted_not_bytes() {
    assert_eq!(chars_of("a√b"), vec!['a', '√', 'b']);
    assert_eq!(
        tokens("\"√√\" == x"),
        vec![
            Token { symbol: Symbol::Text, start: 1, end: 3 },
            Token { symbol: Symbol::EqualEqual, start: 5, end: 7 },
            Token { symbol: Symbol::Name, start: 8, end: 9 },
        ]
    );
}

#[test]
fn every_symbol_is_read() {
    assert_eq!(
        symbols("1 \"s\" n + - * / ^ == != < <= > >= && || ! ( )"),
        vec![
            Symbol::Number,
            Symbol::Text,
            Symbol::Name,
            Symbol::Plus,
            Symbol::Minus,
            Symbol::Star,
            Symbol::Slash,
            Symbol::Caret,
            Symbol::EqualEqual,
            Symbol::BangEqual,
            Symbol::Less,
            Symbol::LessEqual,
            Symbol::Greater,
            Symbol::GreaterEqual,
            Symbol::AndAnd,
            Symbol::OrOr,
            Symbol::Bang,
            Symbol::Open,
            Symbol::Close,
        ]
    );
    assert_eq!(symbols("a<=b!=!c"), vec![
        Symbol::Name,
        Symbol::LessEqual,
        Symbol::Name,
        Symbol::BangEqual,
        Symbol::Bang,
        Symbol::Name,
    ]);
    assert!(symbols(" \t\r\n").is_empty());
}

#[test]
fn numbers_take_a_fraction_and_an_exponent() {
    let spans = |text: &str| -> Vec<(Symbol, usize, usize)> {
        tokens(text).iter().map(|token| (token.symbol, token.start, token.end)).collect()
    };
    assert_eq!(spans("12"), vec![(Symbol::Number, 0, 2)]);
    assert_eq!(spans("12.5"), vec![(Symbol::Number, 0, 4)]);
    assert_eq!(spans("12."), vec![(Symbol::Number, 0, 3)]);
    assert_eq!(spans("1e5"), vec![(Symbol::Number, 0, 3)]);
    assert_eq!(spans("1.5E-3"), vec![(Symbol::Number, 0, 6)]);
    assert_eq!(spans("1e+30"), vec![(Symbol::Number, 0, 5)]);
    // An exponent without digits is no part of the number.
    assert_eq!(spans("2e"), vec![(Symbol::Number, 0, 1), (Symbol::Name, 1, 2)]);
    assert_eq!(
        spans("2e+x"),
        vec![
            (Symbol::Number, 0, 1),
            (Symbol::Name, 1, 2),
            (Symbol::Plus, 2, 3),
            (Symbol::Name, 3, 4)
        ]
    );
    assert_eq!(spans("x1_y 9z"), vec![
        (Symbol::Name, 0, 4),
        (Symbol::Number, 5, 6),
        (Symbol::Name, 6, 7)
    ]);
}

#[test]
fn lexical_errors_name_the_character() {
    let error = |text: &str| tokenize(&chars_of(text)).unwrap_err();
    assert_eq!(
        error("a # b"),
        ParseError { kind: ParseErrorKind::UnexpectedCharacter, position: 2 }
    );
    assert_eq!(
        error("a |"),
        ParseError { kind: ParseErrorKind::UnexpectedCharacter, position: 2 }
    );
    assert_eq!(
        error(".5"),
        ParseError { kind: ParseErrorKind::UnexpectedCharacter, position: 0 }
    );
    assert_eq!(
        error("x \"open"),
        ParseError { kind: ParseErrorKind::UnterminatedString, position: 2 }
    );
}

#[test]
fn the_syntax_tree_holds_token_indices() {
    assert!(matches!(syntax("7"), Syntax::Number(0)));
    assert!(matches!(syntax("(\"s\")"), Syntax::Text(1)));
    match syntax("a * b + c") {
        Syntax::Infix(Operator::Add, 3, lhs, rhs) => {
            assert!(matches!(*rhs, Syntax::Name(4)));
            match *lhs {
                Syntax::Infix(Operator::Multiply, 1, lhs, rhs) => {
                    assert!(matches!(*lhs, Syntax::Name(0)));
                    assert!(matches!(*rhs, Syntax::Name(2)));
                },
                other => panic!("{other:?}"),
            }
        },
        other => panic!("{other:?}"),
    }
    match syntax("a ^ b ^ c") {
        Syntax::Infix(Operator::Power, 1, lhs, rhs) => {
            assert!(matches!(*lhs, Syntax::Name(0)));
            assert!(matches!(*rhs, Syntax::Infix(Operator::Power, 3, _, _)));
        },
        other => panic!("{other:?}"),
    }
    match syntax("-a - !b") {
        Syntax::Infix(Operator::Subtract, 2, lhs, rhs) => {
            assert!(matches!(*lhs, Syntax::Negate(0, _)));
            assert!(matches!(*rhs, Syntax::Invert(3, _)));
        },
        other => panic!("{other:?}"),
    }
}

#[test]
fn kinds_follow_the_operators() {
    assert_eq!(kind("1"), Ok(Kind::Real));
    assert_eq!(kind("x"), Ok(Kind::Variable));
    assert_eq!(kind("\"x\""), Ok(Kind::Text));
    assert_eq!(kind("-x"), Ok(Kind::Real));
    assert_eq!(kind("x + 1"), Ok(Kind::Real));
    assert_eq!(kind("x < 1"), Ok(Kind::Boolean));
    assert_eq!(kind("x == y"), Ok(Kind::Boolean));
    assert_eq!(kind("x == \"y\""), Ok(Kind::Boolean));
    assert_eq!(kind("!(x != y) || x >= 2"), Ok(Kind::Boolean));
    assert_eq!(
        kind("x < \"y\""),
        Err(ParseError { kind: ParseErrorKind::MismatchedOperands, position: 2 })
    );
    assert_eq!(
        kind("(x < y) == (y < x)"),
        Err(ParseError { kind: ParseErrorKind::MismatchedOperands, position: 8 })
    );
    assert_eq!(
        kind("(1 && 2) + (3 || 4)"),
        Err(ParseError { kind: ParseErrorKind::MismatchedOperands, position: 3 })
    );
}
