//! The parser that reads a function definition straight from the text.
//!
//! ```text
//! Function   := Ident Spaced('=') '(' Names ')' Spaced('=>') Spaced(Body)
//! Names      := ( Spaced(Ident) (',' Spaced(Ident))* )?
//! Body       := '{' Expression '}'
//! Expression := Spaced('void')?
//! Ident      := a letter or an underscore, then letters, digits, underscores
//!               and apostrophes
//! Spaced(x)  := ' '* x ' '*
//! ```
//!
//! What each rule accepts is defined by a specification function over the
//! bytes of the text and an offset into them; the rule computes exactly that.

use crate::chars::{
    decode_char, is_ident_char, is_ident_start, is_position, is_valid_ident_start,
    lemma_ascii_at, substring,
};
use crate::lexer::{bytes_left, peek_at, run_end, run_from, text_of, CharClass};
use crate::number::{decimal_text, push_integer};
use crate::token::quoted;
use vstd::prelude::*;
use vstd::string::*;
use vstd::utf8::*;

verus! {

/// An expression: what can be evaluated to a value.
#[derive(Clone, Copy, Debug, PartialEq, Eq, Structural)]
pub enum Expression {
    Unit,
}

/// A definition, as this parser reads it: of a type, or of a function with
/// its name, the names of its parameters and its body.
#[derive(Debug, PartialEq)]
pub enum Definition<'a> {
    TypeDefinition,
    FunctionDefinition { ident: &'a str, parameters: Vec<&'a str>, body: Expression },
}

/// The model of a definition: names are sequences of characters.
pub ghost enum DefinitionModel {
    TypeDefinition,
    FunctionDefinition { ident: Seq<char>, parameters: Seq<Seq<char>>, body: Expression },
}

/// The texts of a list of names, one by one.
pub open spec fn names_view<'a>(names: Seq<&'a str>) -> Seq<Seq<char>> {
    Seq::new(names.len(), |i: int| names[i]@)
}

impl<'a> View for Definition<'a> {
    type V = DefinitionModel;

    open spec fn view(&self) -> DefinitionModel {
        match *self {
            Definition::TypeDefinition => DefinitionModel::TypeDefinition,
            Definition::FunctionDefinition { ident, parameters, body } => DefinitionModel::FunctionDefinition {
                ident: ident@,
                parameters: names_view(parameters@),
                body,
            },
        }
    }
}

/// What the parser needed where it failed.
#[derive(Clone, Copy, Debug, PartialEq, Eq, Structural)]
pub enum Expectation {
    /// A letter or an underscore, to begin an identifier.
    IdentifierStart,
    /// `=`
    Equal,
    /// `(`
    Lparen,
    /// `)`
    RParen,
    /// `=>`
    Arrow,
    /// `{`
    LBrace,
    /// `}`
    RBrace,
}

/// A syntax error: what was needed, and the byte offset at which it was not
/// found.
#[derive(Clone, Copy, Debug, PartialEq, Eq, Structural)]
pub struct TextError {
    pub expected: Expectation,
    pub offset: usize,
}

/// The error of missing `expected` at `offset`.
pub open spec fn failure(expected: Expectation, offset: int) -> TextError {
    TextError { expected, offset: offset as usize }
}

/// The byte `b` stands at offset `pos` of `src`.
pub open spec fn byte_at(src: Seq<u8>, pos: int, b: u8) -> bool {
    0 <= pos < src.len() && src[pos] == b
}

/// The word `=>` stands at offset `pos` of `src`.
pub open spec fn arrow_at(src: Seq<u8>, pos: int) -> bool {
    byte_at(src, pos, 0x3d) && byte_at(src, pos + 1, 0x3e)
}

/// The word `void` stands at offset `pos` of `src`.
pub open spec fn void_at(src: Seq<u8>, pos: int) -> bool {
    byte_at(src, pos, 0x76) && byte_at(src, pos + 1, 0x6f) && byte_at(src, pos + 2, 0x69)
        && byte_at(src, pos + 3, 0x64)
}

/// The offset behind the spaces that stand at offset `pos` of `src`.
pub open spec fn blanks_end(src: Seq<u8>, pos: int) -> int {
    run_end(src, pos, CharClass::Blank)
}

/// `c` may continue an identifier of this parser: what may continue an
/// identifier elsewhere, and the apostrophe.
pub open spec fn is_name_char(c: char) -> bool {
    is_ident_char(c) || c == '\''
}

/// An identifier at offset `pos`: the offset at which it ends. It begins
/// with a letter or an underscore and is as long as it can be.
pub open spec fn spec_ident_at(src: Seq<u8>, pos: int) -> Result<int, TextError> {
    match peek_at(src, pos) {
        Some(c) => if is_ident_start(c) {
            Ok(run_end(src, pos, CharClass::NameChar))
        } else {
            Err(failure(Expectation::IdentifierStart, pos))
        },
        None => Err(failure(Expectation::IdentifierStart, pos)),
    }
}

/// The byte `b` at offset `pos`: the offset behind it, or the error of
/// missing `expected`.
pub open spec fn spec_mark_at(src: Seq<u8>, pos: int, b: u8, expected: Expectation) -> Result<
    int,
    TextError,
> {
    if byte_at(src, pos, b) {
        Ok(pos + 1)
    } else {
        Err(failure(expected, pos))
    }
}

/// An expression at offset `pos`: the offset behind it. It is the word
/// `void` with spaces around it, or nothing at all.
pub open spec fn spec_expression_at(src: Seq<u8>, pos: int) -> int {
    let word = blanks_end(src, pos);
    if void_at(src, word) {
        blanks_end(src, word + 4)
    } else {
        pos
    }
}

/// A body at offset `pos`: the offset behind it.
pub open spec fn spec_function_body_at(src: Seq<u8>, pos: int) -> Result<int, TextError> {
    match spec_mark_at(src, pos, 0x7b, Expectation::LBrace) {
        Err(error) => Err(error),
        Ok(inner) => {
            let closing = spec_expression_at(src, inner);
            spec_mark_at(src, closing, 0x7d, Expectation::RBrace)
        },
    }
}

/// The names that follow, each behind a comma, from offset `pos` on, after
/// the names `found`: the offset behind them, and all the names. A comma
/// that no name follows is left where it is.
pub open spec fn spec_more_names(src: Seq<u8>, pos: int, found: Seq<Seq<char>>) -> (
    int,
    Seq<Seq<char>>,
)
    decreases bytes_left(src, pos),
{
    if byte_at(src, pos, 0x2c) {
        let start = blanks_end(src, pos + 1);
        match spec_ident_at(src, start) {
            Ok(end) => {
                let next = blanks_end(src, end);
                if next > pos {
                    spec_more_names(src, next, found.push(text_of(src, start, end)))
                } else {
                    (pos, found)
                }
            },
            Err(_) => (pos, found),
        }
    } else {
        (pos, found)
    }
}

/// The names at offset `pos`, parted by commas, with spaces around each:
/// the offset behind them, and the names. There may be none.
pub open spec fn spec_names_at(src: Seq<u8>, pos: int) -> (int, Seq<Seq<char>>) {
    let start = blanks_end(src, pos);
    match spec_ident_at(src, start) {
        Ok(end) => spec_more_names(src, blanks_end(src, end), seq![text_of(src, start, end)]),
        Err(_) => (pos, Seq::empty()),
    }
}

/// A function definition at offset `pos`: the offset behind it, and the
/// definition.
pub open spec fn spec_function_at(src: Seq<u8>, pos: int) -> Result<
    (int, DefinitionModel),
    TextError,
> {
    match spec_ident_at(src, pos) {
        Err(error) => Err(error),
        Ok(name_end) => match spec_mark_at(
            src,
            blanks_end(src, name_end),
            0x3d,
            Expectation::Equal,
        ) {
            Err(error) => Err(error),
            Ok(after_equal) => match spec_mark_at(
                src,
                blanks_end(src, after_equal),
                0x28,
                Expectation::Lparen,
            ) {
                Err(error) => Err(error),
                Ok(opened) => {
                    let (listed, parameters) = spec_names_at(src, opened);
                    match spec_mark_at(src, listed, 0x29, Expectation::RParen) {
                        Err(error) => Err(error),
                        Ok(closed) => {
                            let arrow = blanks_end(src, closed);
                            if !arrow_at(src, arrow) {
                                Err(failure(Expectation::Arrow, arrow))
                            } else {
                                match spec_function_body_at(
                                    src,
                                    blanks_end(src, blanks_end(src, arrow + 2)),
                                ) {
                                    Err(error) => Err(error),
                                    Ok(body_end) => Ok(
                                        (
                                            blanks_end(src, body_end),
                                            DefinitionModel::FunctionDefinition {
                                                ident: text_of(src, pos, name_end),
                                                parameters,
                                                body: Expression::Unit,
                                            },
                                        ),
                                    ),
                                }
                            }
                        },
                    }
                },
            }
        },
    }
}

/// Decides whether `inp` may continue an identifier of this parser.
pub fn is_valid_ident_char(inp: char) -> (r: bool)
    ensures
        r == is_name_char(inp),
{
    crate::chars::is_valid_ident_char(inp) || inp == '\''
}

/// Reads an identifier at offset `pos` of `input`.
pub fn ident_at(input: &str, pos: usize) -> (result: Result<usize, TextError>)
    requires
        is_position(input.spec_bytes(), pos as int),
    ensures
        match result {
            Ok(end) => spec_ident_at(input.spec_bytes(), pos as int) == Ok::<int, TextError>(
                end as int,
            ) && pos <= end <= input.spec_bytes().len() && is_position(
                input.spec_bytes(),
                end as int,
            ),
            Err(error) => spec_ident_at(input.spec_bytes(), pos as int) == Err::<int, TextError>(
                error,
            ),
        },
{
    proof {
        encode_utf8_valid_utf8(input@);
    }
    let bytes = input.as_bytes();
    if pos < bytes.len() {
        let (first, _) = decode_char(bytes, pos);
        if is_valid_ident_start(first) {
            return Ok(run_from(input, pos, CharClass::NameChar));
        }
    }
    Err(TextError { expected: Expectation::IdentifierStart, offset: pos })
}

/// Reads the byte `b`, which is of ASCII, at offset `pos` of `input`.
pub fn mark_at(input: &str, pos: usize, b: u8, expected: Expectation) -> (result: Result<
    usize,
    TextError,
>)
    requires
        is_position(input.spec_bytes(), pos as int),
        b < 0x80,
    ensures
        match result {
            Ok(end) => spec_mark_at(input.spec_bytes(), pos as int, b, expected) == Ok::<
                int,
                TextError,
            >(end as int) && end == pos + 1 && is_position(input.spec_bytes(), end as int),
            Err(error) => spec_mark_at(input.spec_bytes(), pos as int, b, expected) == Err::<
                int,
                TextError,
            >(error),
        },
{
    proof {
        encode_utf8_valid_utf8(input@);
    }
    let bytes = input.as_bytes();
    if pos < bytes.len() && bytes[pos] == b {
        proof {
            lemma_ascii_at(bytes@, pos as int);
        }
        Ok(pos + 1)
    } else {
        Err(TextError { expected, offset: pos })
    }
}

/// Reads an expression at offset `pos` of `input`.
pub fn expression_at(input: &str, pos: usize) -> (end: usize)
    requires
        is_position(input.spec_bytes(), pos as int),
    ensures
        end == spec_expression_at(input.spec_bytes(), pos as int),
        pos <= end <= input.spec_bytes().len(),
        is_position(input.spec_bytes(), end as int),
{
    proof {
        encode_utf8_valid_utf8(input@);
    }
    let bytes = input.as_bytes();
    let word = run_from(input, pos, CharClass::Blank);
    if word < bytes.len() && bytes.len() - word >= 4 && bytes[word] == 0x76 && bytes[word + 1]
        == 0x6f && bytes[word + 2] == 0x69 && bytes[word + 3] == 0x64 {
        proof {
            lemma_ascii_at(bytes@, word as int);
            lemma_ascii_at(bytes@, word + 1);
            lemma_ascii_at(bytes@, word + 2);
            lemma_ascii_at(bytes@, word + 3);
        }
        run_from(input, word + 4, CharClass::Blank)
    } else {
        pos
    }
}

/// Reads a body at offset `pos` of `input`.
pub fn function_body_at(input: &str, pos: usize) -> (result: Result<usize, TextError>)
    requires
        is_position(input.spec_bytes(), pos as int),
    ensures
        match result {
            Ok(end) => spec_function_body_at(input.spec_bytes(), pos as int) == Ok::<
                int,
                TextError,
            >(end as int) && pos <= end <= input.spec_bytes().len() && is_position(
                input.spec_bytes(),
                end as int,
            ),
            Err(error) => spec_function_body_at(input.spec_bytes(), pos as int) == Err::<
                int,
                TextError,
            >(error),
        },
{
    let inner = match mark_at(input, pos, 0x7b, Expectation::LBrace) {
        Ok(inner) => inner,
        Err(error) => {
            return Err(error);
        },
    };
    let closing = expression_at(input, inner);
    mark_at(input, closing, 0x7d, Expectation::RBrace)
}

/// Reads names parted by commas at offset `pos` of `input`.
pub fn names_at<'a>(input: &'a str, pos: usize) -> (result: (usize, Vec<&'a str>))
    requires
        is_position(input.spec_bytes(), pos as int),
    ensures
        (result.0 as int, names_view(result.1@)) == spec_names_at(input.spec_bytes(), pos as int),
        pos <= result.0 <= input.spec_bytes().len(),
        is_position(input.spec_bytes(), result.0 as int),
{
    let ghost src = input.spec_bytes();
    let mut names: Vec<&'a str> = Vec::new();
    let start = run_from(input, pos, CharClass::Blank);
    let end = match ident_at(input, start) {
        Ok(end) => end,
        Err(_) => {
            assert(names_view(names@) =~= Seq::empty());
            return (pos, names);
        },
    };
    names.push(substring(input, start, end));
    assert(names_view(names@) =~= seq![text_of(src, start as int, end as int)]);
    let mut cursor = run_from(input, end, CharClass::Blank);
    let ghost goal = spec_more_names(src, cursor as int, names_view(names@));
    loop
        invariant
            src == input.spec_bytes(),
            pos <= cursor <= src.len(),
            is_position(src, cursor as int),
            spec_more_names(src, cursor as int, names_view(names@)) == goal,
        ensures
            pos <= cursor <= src.len(),
            is_position(src, cursor as int),
            goal == (cursor as int, names_view(names@)),
        decreases src.len() - cursor,
    {
        let after_comma = match mark_at(input, cursor, 0x2c, Expectation::RParen) {
            Ok(after_comma) => after_comma,
            Err(_) => {
                break ;
            },
        };
        let start = run_from(input, after_comma, CharClass::Blank);
        let end = match ident_at(input, start) {
            Ok(end) => end,
            Err(_) => {
                break ;
            },
        };
        let ghost before = names_view(names@);
        names.push(substring(input, start, end));
        assert(names_view(names@) =~= before.push(text_of(src, start as int, end as int)));
        cursor = run_from(input, end, CharClass::Blank);
    }
    (cursor, names)
}

/// Reads a function definition at offset `pos` of `input`.
pub fn function_at<'a>(input: &'a str, pos: usize) -> (result: Result<
    (usize, Definition<'a>),
    TextError,
>)
    requires
        is_position(input.spec_bytes(), pos as int),
    ensures
        match result {
            Ok((end, definition)) => spec_function_at(input.spec_bytes(), pos as int) == Ok::<
                (int, DefinitionModel),
                TextError,
            >((end as int, definition@)) && pos <= end <= input.spec_bytes().len()
                && is_position(input.spec_bytes(), end as int),
            Err(error) => spec_function_at(input.spec_bytes(), pos as int) == Err::<
                (int, DefinitionModel),
                TextError,
            >(error),
        },
{
    proof {
        encode_utf8_valid_utf8(input@);
    }
    let bytes = input.as_bytes();
    let name_end = match ident_at(input, pos) {
        Ok(end) => end,
        Err(error) => {
            return Err(error);
        },
    };
    let ident = substring(input, pos, name_end);
    let equal = run_from(input, name_end, CharClass::Blank);
    let after_equal = match mark_at(input, equal, 0x3d, Expectation::Equal) {
        Ok(end) => end,
        Err(error) => {
            return Err(error);
        },
    };
    let paren = run_from(input, after_equal, CharClass::Blank);
    let opened = match mark_at(input, paren, 0x28, Expectation::Lparen) {
        Ok(end) => end,
        Err(error) => {
            return Err(error);
        },
    };
    let (listed, parameters) = names_at(input, opened);
    let closed = match mark_at(input, listed, 0x29, Expectation::RParen) {
        Ok(end) => end,
        Err(error) => {
            return Err(error);
        },
    };
    let arrow = run_from(input, closed, CharClass::Blank);
    if !(arrow < bytes.len() && bytes.len() - arrow >= 2 && bytes[arrow] == 0x3d && bytes[arrow
        + 1] == 0x3e) {
        return Err(TextError { expected: Expectation::Arrow, offset: arrow });
    }
    proof {
        lemma_ascii_at(bytes@, arrow as int);
        lemma_ascii_at(bytes@, arrow + 1);
    }
    let after_arrow = run_from(input, arrow + 2, CharClass::Blank);
    let body_start = run_from(input, after_arrow, CharClass::Blank);
    let body_end = match function_body_at(input, body_start) {
        Ok(end) => end,
        Err(error) => {
            return Err(error);
        },
    };
    let end = run_from(input, body_end, CharClass::Blank);
    Ok((end, Definition::FunctionDefinition { ident, parameters, body: Expression::Unit }))
}

/// What is left of `input` from offset `pos` on.
pub fn rest_from<'a>(input: &'a str, pos: usize) -> (rest: &'a str)
    requires
        is_position(input.spec_bytes(), pos as int),
    ensures
        rest.spec_bytes() == input.spec_bytes().subrange(
            pos as int,
            input.spec_bytes().len() as int,
        ),
{
    proof {
        encode_utf8_valid_utf8(input@);
        is_char_boundary_start_end_of_seq(input.spec_bytes());
    }
    let len = input.as_bytes().len();
    substring(input, pos, len)
}

/// `rest` is what is left of `input` behind its first `used` bytes.
pub open spec fn left_behind(input: &str, rest: &str, used: int) -> bool {
    0 <= used <= input.spec_bytes().len() && rest.spec_bytes() == input.spec_bytes().subrange(
        used,
        input.spec_bytes().len() as int,
    )
}

/// Parses an identifier at the head of `input`: what is left, and the
/// identifier.
pub fn parse_ident<'a>(input: &'a str) -> (result: Result<(&'a str, &'a str), TextError>)
    ensures
        match result {
            Ok((rest, name)) => spec_ident_at(input.spec_bytes(), 0) matches Ok(end)
                && left_behind(input, rest, end) && name@ == text_of(input.spec_bytes(), 0, end)
                && name.spec_bytes() == input.spec_bytes().subrange(0, end),
            Err(error) => spec_ident_at(input.spec_bytes(), 0) == Err::<int, TextError>(error),
        },
{
    proof {
        encode_utf8_valid_utf8(input@);
        is_char_boundary_start_end_of_seq(input.spec_bytes());
    }
    match ident_at(input, 0) {
        Ok(end) => Ok((rest_from(input, end), substring(input, 0, end))),
        Err(error) => Err(error),
    }
}

/// Parses an expression at the head of `input`: what is left, and the
/// expression. It never fails: where no expression stands, all is left.
pub fn expression<'a>(input: &'a str) -> (result: Result<(&'a str, Expression), TextError>)
    ensures
        result matches Ok((rest, body)) && left_behind(
            input,
            rest,
            spec_expression_at(input.spec_bytes(), 0),
        ) && body == Expression::Unit,
{
    proof {
        encode_utf8_valid_utf8(input@);
        is_char_boundary_start_end_of_seq(input.spec_bytes());
    }
    let end = expression_at(input, 0);
    Ok((rest_from(input, end), Expression::Unit))
}

/// Parses a body at the head of `input`: what is left, and the expression
/// in the braces.
pub fn function_body<'a>(input: &'a str) -> (result: Result<(&'a str, Expression), TextError>)
    ensures
        match result {
            Ok((rest, body)) => spec_function_body_at(input.spec_bytes(), 0) matches Ok(end)
                && left_behind(input, rest, end) && body == Expression::Unit,
            Err(error) => spec_function_body_at(input.spec_bytes(), 0) == Err::<int, TextError>(
                error,
            ),
        },
{
    proof {
        encode_utf8_valid_utf8(input@);
        is_char_boundary_start_end_of_seq(input.spec_bytes());
    }
    match function_body_at(input, 0) {
        Ok(end) => Ok((rest_from(input, end), Expression::Unit)),
        Err(error) => Err(error),
    }
}

/// Parses a function definition at the head of `input`: what is left, and
/// the definition.
pub fn parse_function<'a>(input: &'a str) -> (result: Result<
    (&'a str, Definition<'a>),
    TextError,
>)
    ensures
        match result {
            Ok((rest, definition)) => spec_function_at(input.spec_bytes(), 0) matches Ok(
                (end, model),
            ) && left_behind(input, rest, end) && definition@ == model,
            Err(error) => spec_function_at(input.spec_bytes(), 0) == Err::<
                (int, DefinitionModel),
                TextError,
            >(error),
        },
{
    proof {
        encode_utf8_valid_utf8(input@);
        is_char_boundary_start_end_of_seq(input.spec_bytes());
    }
    match function_at(input, 0) {
        Ok((end, definition)) => Ok((rest_from(input, end), definition)),
        Err(error) => Err(error),
    }
}

/// What is left of `input` behind the spaces at its head.
pub fn skip_spaces<'a>(input: &'a str) -> (rest: &'a str)
    ensures
        left_behind(input, rest, blanks_end(input.spec_bytes(), 0)),
{
    proof {
        encode_utf8_valid_utf8(input@);
        is_char_boundary_start_end_of_seq(input.spec_bytes());
    }
    let end = run_from(input, 0, CharClass::Blank);
    rest_from(input, end)
}

/// Runs `parser` between spaces: the spaces at the head of `input` are
/// skipped, `parser` reads what follows, and the spaces behind what it read
/// are skipped too. An error of `parser` is handed on as it is.
pub fn optional_space_delim<'a, O, F>(parser: F, input: &'a str) -> (result: Result<
    (&'a str, O),
    TextError,
>) where F: FnOnce(&'a str) -> Result<(&'a str, O), TextError>
    requires
        forall|inner: &'a str|
            left_behind(input, inner, blanks_end(input.spec_bytes(), 0))
                ==> #[trigger] parser.requires((inner,)),
    ensures
        exists|inner: &'a str, outcome: Result<(&'a str, O), TextError>|
            {
                &&& left_behind(input, inner, blanks_end(input.spec_bytes(), 0))
                &&& #[trigger] parser.ensures((inner,), outcome)
                &&& match outcome {
                    Ok((middle, value)) => result matches Ok((rest, given)) && given == value
                        && left_behind(middle, rest, blanks_end(middle.spec_bytes(), 0)),
                    Err(error) => result matches Err(given) && given == error,
                }
            },
{
    let inner = skip_spaces(input);
    let outcome = parser(inner);
    let ghost seen = outcome;
    let result = match outcome {
        Ok((middle, value)) => Ok((skip_spaces(middle), value)),
        Err(error) => Err(error),
    };
    assert(parser.ensures((inner,), seen));
    result
}

/// The tokens of the language as this parser names them. A token that
/// depends on the source text carries that text, borrowed from the source,
/// or its value.
#[derive(Clone, Copy, Debug, PartialEq)]
pub enum Token<'a> {
    /// An identifier: the name of a value or of a type.
    Ident(&'a str),
    /// An integer, with its value.
    Integer(i64),
    /// A number with a decimal point, with its text as written.
    Number(&'a str),
    /// A string literal, with the text between its quotes.
    String(&'a str),
    /// A comment, with its text.
    Comment(&'a str),
    /// `(`
    Lparen,
    /// `)`
    RParen,
    /// `:`
    Colon,
    /// `{`
    LBrace,
    /// `}`
    RBrace,
    /// `=>`
    FatArrow,
    /// `=`
    Equal,
    /// `,`
    Comma,
    /// `.`
    Dot,
    /// `+`
    Plus,
    /// `-`
    Minus,
    /// `*`
    Star,
    /// `/`
    Slash,
}

impl<'a> Token<'a> {
    /// The token as it is shown to a reader: a name and a number as written,
    /// an integer in base ten, the text of a string or of a comment between
    /// double quotes, and a mark as it is spelt.
    pub open spec fn shown(&self) -> Seq<char> {
        match *self {
            Token::Ident(text) => text@,
            Token::Integer(value) => decimal_text(value as int),
            Token::Number(text) => text@,
            Token::String(text) => "\""@ + text@ + "\""@,
            Token::Comment(text) => "\""@ + text@ + "\""@,
            Token::Lparen => "("@,
            Token::RParen => ")"@,
            Token::Colon => ":"@,
            Token::LBrace => "{"@,
            Token::RBrace => "}"@,
            Token::FatArrow => "=>"@,
            Token::Equal => "="@,
            Token::Comma => ","@,
            Token::Dot => "."@,
            Token::Plus => "+"@,
            Token::Minus => "-"@,
            Token::Star => "*"@,
            Token::Slash => "/"@,
        }
    }

    /// The token as it is shown to a reader.
    pub fn to_string(&self) -> (text: String)
        ensures
            text@ == self.shown(),
    {
        match *self {
            Token::Ident(name) => String::from_str(name),
            Token::Integer(value) => {
                let mut text = String::new();
                push_integer(&mut text, value);
                assert(text@ =~= decimal_text(value as int));
                text
            },
            Token::Number(literal) => String::from_str(literal),
            Token::String(content) => quoted(content),
            Token::Comment(content) => quoted(content),
            Token::Lparen => String::from_str("("),
            Token::RParen => String::from_str(")"),
            Token::Colon => String::from_str(":"),
            Token::LBrace => String::from_str("{"),
            Token::RBrace => String::from_str("}"),
            Token::FatArrow => String::from_str("=>"),
            Token::Equal => String::from_str("="),
            Token::Comma => String::from_str(","),
            Token::Dot => String::from_str("."),
            Token::Plus => String::from_str("+"),
            Token::Minus => String::from_str("-"),
            Token::Star => String::from_str("*"),
            Token::Slash => String::from_str("/"),
        }
    }
}

} // verus!
