use meri::lexer::{punctuation, CharClass};
use meri::number::{parse_integer, push_digits, push_integer};
use meri::token::{quoted, try_into_keyword, TokenTag, TokenType};

#[test]
fn keyword_table() {
    assert_eq!(try_into_keyword("module"), Some(TokenType::Module));
    assert_eq!(try_into_keyword("type"), Some(TokenType::Type));
    assert_eq!(try_into_keyword("typealias"), Some(TokenType::TypeAlias));
    assert_eq!(try_into_keyword("exposing"), Some(TokenType::Exposing));
    assert_eq!(try_into_keyword("import"), Some(TokenType::Import));
    assert_eq!(try_into_keyword("Module"), None);
    assert_eq!(try_into_keyword("typ"), None);
    assert_eq!(try_into_keyword("types"), None);
    assert_eq!(try_into_keyword(""), None);
}

#[test]
fn token_types_are_shown() {
    assert_eq!(TokenType::Ident("x1").to_string(), "x1");
    assert_eq!(TokenType::IntegerLit(0).to_string(), "0");
    assert_eq!(TokenType::IntegerLit(1234567890).to_string(), "1234567890");
    assert_eq!(TokenType::IntegerLit(-7).to_string(), "-7");
    assert_eq!(
        TokenType::IntegerLit(i64::MIN).to_string(),
        "-9223372036854775808"
    );
    assert_eq!(
        TokenType::IntegerLit(i64::MAX).to_string(),
        "9223372036854775807"
    );
    assert_eq!(TokenType::FloatLit("23.3").to_string(), "23.3");
    assert_eq!(TokenType::StringLit("a b").to_string(), "\"a b\"");
    assert_eq!(TokenType::Comment("-- c").to_string(), "\"-- c\"");
    let marks = [
        (TokenType::Lparen, "("),
        (TokenType::RParen, ")"),
        (TokenType::Colon, ":"),
        (TokenType::LBrace, "{"),
        (TokenType::RBrace, "}"),
        (TokenType::LAngleBracket, "<"),
        (TokenType::RAngleBracket, ">"),
        (TokenType::Equal, "="),
        (TokenType::Comma, ","),
        (TokenType::Dot, "."),
        (TokenType::Plus, "+"),
        (TokenType::Minus, "-"),
        (TokenType::Star, "*"),
        (TokenType::Percent, "%"),
        (TokenType::Vbar, "|"),
        (TokenType::Amper, "&"),
        (TokenType::Exclam, "!"),
        (TokenType::Slash, "/"),
        (TokenType::BackSlash, "\\"),
        (TokenType::Module, "module"),
        (TokenType::Type, "type"),
        (TokenType::TypeAlias, "typealias"),
        (TokenType::Exposing, "exposing"),
        (TokenType::Import, "import"),
        (TokenType::EOF, "EOF"),
    ];
    for (typ, text) in marks {
        assert_eq!(typ.to_string(), text);
    }
}

#[test]
fn tags_and_sameness() {
    assert_eq!(TokenType::Ident("a").tag(), TokenTag::Ident);
    assert_eq!(TokenType::IntegerLit(3).tag(), TokenTag::IntegerLit);
    assert_eq!(TokenType::FloatLit("3.0").tag(), TokenTag::FloatLit);
    assert_eq!(TokenType::Comment("--").tag(), TokenTag::Comment);
    assert_eq!(TokenType::Slash.tag(), TokenTag::Slash);
    assert_eq!(TokenType::EOF.tag(), TokenTag::EOF);
    assert!(TokenType::Ident("a").same(&TokenType::Ident("a")));
    assert!(!TokenType::Ident("a").same(&TokenType::Ident("b")));
    assert!(!TokenType::Ident("a").same(&TokenType::Comment("a")));
    assert!(TokenType::IntegerLit(5).same(&TokenType::IntegerLit(5)));
    assert!(!TokenType::IntegerLit(5).same(&TokenType::IntegerLit(6)));
    assert!(TokenType::Comma.same(&TokenType::Comma));
    assert!(!TokenType::Comma.same(&TokenType::Dot));
}

#[test]
fn integers_are_read_in_base_ten() {
    assert_eq!(parse_integer(b"23"), Some(23));
    assert_eq!(parse_integer(b"-23"), Some(-23));
    assert_eq!(parse_integer(b"007"), Some(7));
    assert_eq!(parse_integer(b"-0"), Some(0));
    assert_eq!(parse_integer(b"9223372036854775807"), Some(i64::MAX));
    assert_eq!(parse_integer(b"9223372036854775808"), None);
    assert_eq!(parse_integer(b"-9223372036854775808"), Some(i64::MIN));
    assert_eq!(parse_integer(b"-9223372036854775809"), None);
    assert_eq!(parse_integer(b"99999999999999999999999"), None);
    assert_eq!(parse_integer(b""), None);
    assert_eq!(parse_integer(b"-"), None);
    assert_eq!(parse_integer(b"1a"), None);
    assert_eq!(parse_integer(b"+1"), None);
    assert_eq!(parse_integer(b"1.5"), None);
}

#[test]
fn integers_are_written_in_base_ten() {
    let mut out = String::from("n=");
    push_integer(&mut out, -120);
    assert_eq!(out, "n=-120");
    push_digits(&mut out, 0);
    push_digits(&mut out, 18446744073709551615);
    assert_eq!(out, "n=-120018446744073709551615");
    assert_eq!(quoted("x"), "\"x\"");
}

#[test]
fn writing_and_reading_an_integer_agree() {
    for value in [0, 1, -1, 10, -10, 99, 100, i64::MAX, i64::MIN, 1234567] {
        let mut out = String::new();
        push_integer(&mut out, value);
        assert_eq!(parse_integer(out.as_bytes()), Some(value));
    }
}

#[test]
fn marks_and_classes() {
    assert_eq!(punctuation('('), Some(TokenType::Lparen));
    assert_eq!(punctuation('/'), Some(TokenType::Slash));
    assert_eq!(punctuation('-'), Some(TokenType::Minus));
    assert_eq!(punctuation('a'), None);
    assert_eq!(punctuation('"'), None);
    assert!(CharClass::Space.contains(' '));
    assert!(CharClass::Space.contains('\n'));
    assert!(CharClass::Space.contains('\u{2003}'));
    assert!(!CharClass::Space.contains('a'));
    assert!(CharClass::Digit.contains('5'));
    assert!(!CharClass::Digit.contains('\u{663}'));
    assert!(CharClass::Identifier.contains('\u{663}'));
    assert!(CharClass::WithinLine.contains('\r'));
    assert!(!CharClass::WithinLine.contains('\n'));
    assert!(CharClass::Blank.contains(' '));
    assert!(!CharClass::Blank.contains('\t'));
    assert!(CharClass::NameChar.contains('\''));
}
