use meri::lexer::{tokenize, LexError, LexErrorKind, Lexer};
use meri::span::Span;
use meri::token::{Token, TokenType};

/// The span of the bytes from `first` to `last`, both included.
fn bytes(first: usize, last: usize) -> Span {
    Span::new(first, last + 1)
}

/// The empty span right behind the byte `last`.
fn behind(last: usize) -> Span {
    Span::new(last + 1, last + 1)
}

/// The value of a literal with a decimal point.
fn float_value(typ: &TokenType) -> f64 {
    match typ {
        TokenType::FloatLit(text) => text.parse::<f64>().unwrap(),
        other => panic!("no literal with a point: {:?}", other),
    }
}

#[test]
fn single_ident() {
    let inp = "func";
    let mut lexer = Lexer::new(inp);

    assert_eq!(
        lexer.advance_token(),
        Ok(Token {
            typ: TokenType::Ident("func"),
            span: bytes(0, 3)
        })
    );
    assert_eq!(
        lexer.advance_token(),
        Ok(Token {
            typ: TokenType::EOF,
            span: behind(3)
        })
    );
}

#[test]
fn space_separated_idents() {
    let inp = "module Main";
    let mut lexer = Lexer::new(inp);

    assert_eq!(
        lexer.advance_token(),
        Ok(Token {
            typ: TokenType::Module,
            span: bytes(0, 5)
        })
    );
    assert_eq!(
        lexer.advance_token(),
        Ok(Token {
            typ: TokenType::Ident("Main"),
            span: bytes(7, 10)
        })
    );
}

#[test]
fn keywords() {
    let inp = "module type typealias exposing import";
    let tokens = tokenize(inp).unwrap();
    assert_eq!(
        tokens,
        [
            Token {
                typ: TokenType::Module,
                span: bytes(0, 5)
            },
            Token {
                typ: TokenType::Type,
                span: bytes(7, 10)
            },
            Token {
                typ: TokenType::TypeAlias,
                span: bytes(12, 20)
            },
            Token {
                typ: TokenType::Exposing,
                span: bytes(22, 29)
            },
            Token {
                typ: TokenType::Import,
                span: bytes(31, 36)
            },
            Token {
                typ: TokenType::EOF,
                span: behind(36)
            },
        ]
    );
}

#[test]
fn punctuation() {
    let inp = "<>!{}wow%&";
    let tokens = tokenize(inp).unwrap();
    assert_eq!(
        tokens[0..tokens.len() - 1],
        [
            Token {
                typ: TokenType::LAngleBracket,
                span: bytes(0, 0)
            },
            Token {
                typ: TokenType::RAngleBracket,
                span: bytes(1, 1)
            },
            Token {
                typ: TokenType::Exclam,
                span: bytes(2, 2)
            },
            Token {
                typ: TokenType::LBrace,
                span: bytes(3, 3)
            },
            Token {
                typ: TokenType::RBrace,
                span: bytes(4, 4)
            },
            Token {
                typ: TokenType::Ident("wow"),
                span: bytes(5, 7)
            },
            Token {
                typ: TokenType::Percent,
                span: bytes(8, 8)
            },
            Token {
                typ: TokenType::Amper,
                span: bytes(9, 9)
            },
        ]
    );
}

#[test]
fn negative_int() {
    let inp = "-23";
    let tokens = tokenize(inp).unwrap();
    assert_eq!(
        tokens[0..tokens.len() - 1],
        [Token {
            typ: TokenType::IntegerLit(-23),
            span: bytes(0, 2)
        }]
    );
}

#[test]
fn positive_int() {
    let inp = "23";
    let tokens = tokenize(inp).unwrap();
    assert_eq!(
        tokens[0..tokens.len() - 1],
        [Token {
            typ: TokenType::IntegerLit(23),
            span: bytes(0, 1)
        }]
    );
}

#[test]
fn negative_float() {
    let inp = "-23.9";
    let tokens = tokenize(inp).unwrap();
    assert_eq!(
        tokens[0..tokens.len() - 1],
        [Token {
            typ: TokenType::FloatLit("-23.9"),
            span: bytes(0, 4)
        }]
    );
    assert_eq!(float_value(&tokens[0].typ), -23.9);
}

#[test]
fn positive_float() {
    let inp = "23.3";
    let tokens = tokenize(inp).unwrap();
    assert_eq!(
        tokens[0..tokens.len() - 1],
        [Token {
            typ: TokenType::FloatLit("23.3"),
            span: bytes(0, 3)
        }]
    );
    assert_eq!(float_value(&tokens[0].typ), 23.3);
}

#[test]
fn func() {
    let inp = r#"sum = (a: Int, b: Int) => { a + b }"#;
    let tokens = tokenize(inp).unwrap();
    assert_eq!(
        tokens[0..tokens.len() - 1],
        [
            Token {
                typ: TokenType::Ident("sum"),
                span: bytes(0, 2),
            },
            Token {
                typ: TokenType::Equal,
                span: bytes(4, 4),
            },
            Token {
                typ: TokenType::Lparen,
                span: bytes(6, 6),
            },
            Token {
                typ: TokenType::Ident("a"),
                span: bytes(7, 7),
            },
            Token {
                typ: TokenType::Colon,
                span: bytes(8, 8),
            },
            Token {
                typ: TokenType::Ident("Int"),
                span: bytes(10, 12),
            },
            Token {
                typ: TokenType::Comma,
                span: bytes(13, 13),
            },
            Token {
                typ: TokenType::Ident("b"),
                span: bytes(15, 15),
            },
            Token {
                typ: TokenType::Colon,
                span: bytes(16, 16),
            },
            Token {
                typ: TokenType::Ident("Int"),
                span: bytes(18, 20),
            },
            Token {
                typ: TokenType::RParen,
                span: bytes(21, 21),
            },
            Token {
                typ: TokenType::Equal,
                span: bytes(23, 23),
            },
            Token {
                typ: TokenType::RAngleBracket,
                span: bytes(24, 24),
            },
            Token {
                typ: TokenType::LBrace,
                span: bytes(26, 26),
            },
            Token {
                typ: TokenType::Ident("a"),
                span: bytes(28, 28),
            },
            Token {
                typ: TokenType::Plus,
                span: bytes(30, 30),
            },
            Token {
                typ: TokenType::Ident("b"),
                span: bytes(32, 32),
            },
            Token {
                typ: TokenType::RBrace,
                span: bytes(34, 34),
            },
        ]
    );
}

#[test]
fn comments() {
    let inp = r#"-- TODO: Add parsing for numbers
parse = (x: String) => { }"#;
    let tokens = tokenize(inp).unwrap();

    assert_eq!(
        tokens[0..tokens.len() - 1],
        [
            Token {
                typ: TokenType::Comment("-- TODO: Add parsing for numbers"),
                span: bytes(0, 31)
            },
            Token {
                typ: TokenType::Ident("parse"),
                span: bytes(33, 37)
            },
            Token {
                typ: TokenType::Equal,
                span: bytes(39, 39)
            },
            Token {
                typ: TokenType::Lparen,
                span: bytes(41, 41)
            },
            Token {
                typ: TokenType::Ident("x"),
                span: bytes(42, 42)
            },
            Token {
                typ: TokenType::Colon,
                span: bytes(43, 43)
            },
            Token {
                typ: TokenType::Ident("String"),
                span: bytes(45, 50)
            },
            Token {
                typ: TokenType::RParen,
                span: bytes(51, 51)
            },
            Token {
                typ: TokenType::Equal,
                span: bytes(53, 53)
            },
            Token {
                typ: TokenType::RAngleBracket,
                span: bytes(54, 54)
            },
            Token {
                typ: TokenType::LBrace,
                span: bytes(56, 56)
            },
            Token {
                typ: TokenType::RBrace,
                span: bytes(58, 58)
            },
        ]
    );
}

#[test]
fn empty_text_is_the_end_of_input() {
    assert_eq!(
        tokenize(""),
        Ok(vec![Token {
            typ: TokenType::EOF,
            span: Span::new(0, 0)
        }])
    );
}

#[test]
fn end_of_input_is_returned_again_and_again() {
    let mut lexer = Lexer::new("a ");
    assert!(lexer.advance_token().is_ok());
    let end = Ok(Token {
        typ: TokenType::EOF,
        span: Span::new(2, 2),
    });
    assert_eq!(lexer.advance_token(), end);
    assert_eq!(lexer.advance_token(), end);
    assert_eq!(lexer.advance_token(), end);
}

#[test]
fn every_punctuation_mark_has_its_token() {
    let tokens = tokenize("(){}:,.+-*%/\\=><!|&").unwrap();
    let kinds: Vec<TokenType> = tokens.iter().map(|t| t.typ).collect();
    assert_eq!(
        kinds,
        vec![
            TokenType::Lparen,
            TokenType::RParen,
            TokenType::LBrace,
            TokenType::RBrace,
            TokenType::Colon,
            TokenType::Comma,
            TokenType::Dot,
            TokenType::Plus,
            TokenType::Minus,
            TokenType::Star,
            TokenType::Percent,
            TokenType::Slash,
            TokenType::BackSlash,
            TokenType::Equal,
            TokenType::RAngleBracket,
            TokenType::LAngleBracket,
            TokenType::Exclam,
            TokenType::Vbar,
            TokenType::Amper,
            TokenType::EOF,
        ]
    );
    for (i, token) in tokens[0..tokens.len() - 1].iter().enumerate() {
        assert_eq!(token.span, Span::new(i, i + 1));
    }
}

#[test]
fn a_second_point_ends_the_literal() {
    let tokens = tokenize("23.3.4").unwrap();
    assert_eq!(
        tokens,
        [
            Token {
                typ: TokenType::FloatLit("23.3"),
                span: Span::new(0, 4)
            },
            Token {
                typ: TokenType::Dot,
                span: Span::new(4, 5)
            },
            Token {
                typ: TokenType::IntegerLit(4),
                span: Span::new(5, 6)
            },
            Token {
                typ: TokenType::EOF,
                span: Span::new(6, 6)
            },
        ]
    );
    assert_eq!(float_value(&tokens[0].typ), 23.3);
}

#[test]
fn a_minus_sign_before_a_digit_belongs_to_the_number() {
    let tokens = tokenize("a -5 - 5 -x").unwrap();
    let kinds: Vec<TokenType> = tokens.iter().map(|t| t.typ).collect();
    assert_eq!(
        kinds,
        vec![
            TokenType::Ident("a"),
            TokenType::IntegerLit(-5),
            TokenType::Minus,
            TokenType::IntegerLit(5),
            TokenType::Minus,
            TokenType::Ident("x"),
            TokenType::EOF,
        ]
    );
}

#[test]
fn a_literal_may_end_with_its_point() {
    let tokens = tokenize("7. x").unwrap();
    assert_eq!(tokens[0].typ, TokenType::FloatLit("7."));
    assert_eq!(tokens[0].span, Span::new(0, 2));
    assert_eq!(float_value(&tokens[0].typ), 7.0);
    assert_eq!(tokens[1].typ, TokenType::Ident("x"));
}

#[test]
fn integers_reach_both_ends_of_the_range() {
    let tokens = tokenize("9223372036854775807 -9223372036854775808").unwrap();
    assert_eq!(tokens[0].typ, TokenType::IntegerLit(i64::MAX));
    assert_eq!(tokens[1].typ, TokenType::IntegerLit(i64::MIN));
}

#[test]
fn an_integer_beyond_the_range_is_an_error() {
    assert_eq!(
        tokenize("x 9223372036854775808"),
        Err(LexError {
            kind: LexErrorKind::IntegerOutOfRange,
            span: Span::new(2, 21)
        })
    );
    assert_eq!(
        tokenize("-9223372036854775809"),
        Err(LexError {
            kind: LexErrorKind::IntegerOutOfRange,
            span: Span::new(0, 20)
        })
    );
}

#[test]
fn a_double_quote_is_an_error() {
    assert_eq!(
        tokenize("name = \"text\""),
        Err(LexError {
            kind: LexErrorKind::StringLiteral,
            span: Span::new(7, 8)
        })
    );
    assert_eq!(
        tokenize("\""),
        Err(LexError {
            kind: LexErrorKind::StringLiteral,
            span: Span::new(0, 1)
        })
    );
    let mut lexer = Lexer::new("a\"");
    assert!(lexer.advance_token().is_ok());
    assert_eq!(
        lexer.advance_token(),
        Err(LexError {
            kind: LexErrorKind::StringLiteral,
            span: Span::new(1, 2)
        })
    );
}

#[test]
fn a_double_quote_in_a_comment_is_part_of_it() {
    let tokens = tokenize("-- say \"hi\"\nx").unwrap();
    assert_eq!(tokens[0].typ, TokenType::Comment("-- say \"hi\""));
    assert_eq!(tokens[1].typ, TokenType::Ident("x"));
}

#[test]
fn unexpected_character_is_an_error() {
    assert_eq!(
        tokenize("a # b"),
        Err(LexError {
            kind: LexErrorKind::UnexpectedChar('#'),
            span: Span::new(2, 3)
        })
    );
    assert_eq!(
        tokenize("a \u{20ac}"),
        Err(LexError {
            kind: LexErrorKind::UnexpectedChar('\u{20ac}'),
            span: Span::new(2, 5)
        })
    );
}

#[test]
fn unicode_words_and_spaces() {
    let inp = "caf\u{e9}\u{a0}x";
    let tokens = tokenize(inp).unwrap();
    assert_eq!(
        tokens,
        [
            Token {
                typ: TokenType::Ident("caf\u{e9}"),
                span: Span::new(0, 5)
            },
            Token {
                typ: TokenType::Ident("x"),
                span: Span::new(7, 8)
            },
            Token {
                typ: TokenType::EOF,
                span: Span::new(8, 8)
            },
        ]
    );
}

#[test]
fn a_word_is_as_long_as_it_can_be() {
    let tokens = tokenize("modules type_ _type import2").unwrap();
    let kinds: Vec<TokenType> = tokens.iter().map(|t| t.typ).collect();
    assert_eq!(
        kinds,
        vec![
            TokenType::Ident("modules"),
            TokenType::Ident("type_"),
            TokenType::Ident("_type"),
            TokenType::Ident("import2"),
            TokenType::EOF,
        ]
    );
}

#[test]
fn spans_and_whitespace_give_back_the_text() {
    let inputs = [
        "sum : (a: Int, b: Int) => Int = { a }",
        "  -- note\n\tx = -3.5 * y\r\n",
        "caf\u{e9}\u{a0}\u{3000}x<>!|&",
        "",
    ];
    for input in inputs {
        let tokens = tokenize(input).unwrap();
        let mut rebuilt = String::new();
        let mut at = 0;
        for token in &tokens {
            let gap = &input[at..token.span.start];
            assert!(gap.chars().all(|c| c.is_whitespace()));
            rebuilt.push_str(gap);
            rebuilt.push_str(&input[token.span.start..token.span.end]);
            at = token.span.end;
        }
        assert_eq!(at, input.len());
        assert_eq!(rebuilt, input);
        assert_eq!(tokens.last().unwrap().typ, TokenType::EOF);
    }
}

#[test]
fn reading_by_characters_follows_the_text() {
    let mut lexer = Lexer::new("a\u{e9}b");
    assert_eq!(lexer.peek_char(), Some('a'));
    assert_eq!(lexer.advance_char(), Some('a'));
    assert_eq!(lexer.tok_id(), 0);
    assert_eq!(lexer.peek_char(), Some('\u{e9}'));
    lexer.consume_char();
    assert_eq!(lexer.tok_id(), 2);
    assert_eq!(lexer.advance_char(), Some('b'));
    assert_eq!(lexer.peek_char(), None);
    assert_eq!(lexer.advance_char(), None);
    assert_eq!(lexer.tok_id(), 3);
}
