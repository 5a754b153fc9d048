//! The lexer: from source text to tokens.
//!
//! What the lexer produces is defined by `scan_token`, for one token, and by
//! `lex`, for a whole text, both over the bytes of the source. `Lexer` and
//! `tokenize` compute exactly that.

use crate::chars::{
    char_at, decode_char, is_ascii_digit, is_decimal_digit, is_ident_char, is_ident_start,
    is_position, is_space, is_space_char, is_valid_ident_char, is_valid_ident_start,
    lemma_ascii_at, lemma_char_step, lemma_wide_at, substring, width_at,
};
use crate::number::{parse_integer, parsed_integer};
use crate::span::Span;
use crate::token::{
    token_views, try_into_keyword, word_kind, Token, TokenKind, TokenTag, TokenType, TokenView,
};
use vstd::prelude::*;
use vstd::slice::slice_subrange;
use vstd::string::*;
use vstd::utf8::*;

verus! {

/// What is wrong with a text that cannot be tokenized.
#[derive(Clone, Copy, Debug, PartialEq, Eq, Structural)]
pub enum LexErrorKind {
    /// A character that begins no token and is no whitespace.
    UnexpectedChar(char),
    /// A double quote: string literals are not supported.
    StringLiteral,
    /// An integer literal whose value does not fit in 64 bits.
    IntegerOutOfRange,
}

/// A lexical error and the place in the source that it is about.
#[derive(Clone, Copy, Debug, PartialEq, Eq, Structural)]
pub struct LexError {
    pub kind: LexErrorKind,
    pub span: Span,
}

/// The classes of character of which the lexer consumes whole runs.
#[derive(Clone, Copy, Debug, PartialEq, Eq, Structural)]
pub enum CharClass {
    /// What separates tokens.
    Space,
    /// What may continue an identifier.
    Identifier,
    /// The digits `0` to `9`.
    Digit,
    /// Everything but the line feed.
    WithinLine,
    /// The space alone.
    Blank,
    /// What may continue an identifier, and the apostrophe.
    NameChar,
}

impl CharClass {
    /// `c` belongs to the class.
    pub open spec fn holds(self, c: char) -> bool {
        match self {
            CharClass::Space => is_space(c),
            CharClass::Identifier => is_ident_char(c),
            CharClass::Digit => is_ascii_digit(c),
            CharClass::WithinLine => c != '\n',
            CharClass::Blank => c == ' ',
            CharClass::NameChar => is_ident_char(c) || c == '\'',
        }
    }

    /// Decides whether `c` belongs to the class.
    pub fn contains(self, c: char) -> (r: bool)
        ensures
            r == self.holds(c),
    {
        match self {
            CharClass::Space => is_space_char(c),
            CharClass::Identifier => is_valid_ident_char(c),
            CharClass::Digit => is_decimal_digit(c),
            CharClass::WithinLine => c != '\n',
            CharClass::Blank => c == ' ',
            CharClass::NameChar => is_valid_ident_char(c) || c == '\'',
        }
    }
}

/// The character at offset `i` of `src`, if `src` has not ended there.
pub open spec fn peek_at(src: Seq<u8>, i: int) -> Option<char> {
    if 0 <= i < src.len() {
        Some(char_at(src, i))
    } else {
        None
    }
}

/// The number of bytes of `src` from offset `from` on.
pub open spec fn bytes_left(src: Seq<u8>, from: int) -> nat {
    if from <= src.len() {
        (src.len() - from) as nat
    } else {
        0
    }
}

/// The offset at which the longest run of characters of `class` that starts
/// at `from` ends.
pub open spec fn run_end(src: Seq<u8>, from: int, class: CharClass) -> int
    decreases bytes_left(src, from),
{
    if 0 <= from < src.len() && class.holds(char_at(src, from)) {
        run_end(src, from + width_at(src, from), class)
    } else {
        from
    }
}

/// The span from `start` to `end`.
pub open spec fn span_of(start: int, end: int) -> Span {
    Span { start: start as usize, end: end as usize }
}

/// The text that `src` holds from `start` to `end`.
pub open spec fn text_of(src: Seq<u8>, start: int, end: int) -> Seq<char> {
    decode_utf8(src.subrange(start, end))
}

/// The kind of the token that the single character `c` makes, if it makes
/// one.
pub open spec fn punctuation_kind(c: char) -> Option<TokenKind> {
    if c == '(' {
        Some(TokenKind::Lparen)
    } else if c == ')' {
        Some(TokenKind::RParen)
    } else if c == '{' {
        Some(TokenKind::LBrace)
    } else if c == '}' {
        Some(TokenKind::RBrace)
    } else if c == ':' {
        Some(TokenKind::Colon)
    } else if c == ',' {
        Some(TokenKind::Comma)
    } else if c == '.' {
        Some(TokenKind::Dot)
    } else if c == '+' {
        Some(TokenKind::Plus)
    } else if c == '-' {
        Some(TokenKind::Minus)
    } else if c == '*' {
        Some(TokenKind::Star)
    } else if c == '%' {
        Some(TokenKind::Percent)
    } else if c == '/' {
        Some(TokenKind::Slash)
    } else if c == '\\' {
        Some(TokenKind::BackSlash)
    } else if c == '=' {
        Some(TokenKind::Equal)
    } else if c == '>' {
        Some(TokenKind::RAngleBracket)
    } else if c == '<' {
        Some(TokenKind::LAngleBracket)
    } else if c == '!' {
        Some(TokenKind::Exclam)
    } else if c == '|' {
        Some(TokenKind::Vbar)
    } else if c == '&' {
        Some(TokenKind::Amper)
    } else {
        None
    }
}

/// The outcome of reading one token: the token or the error, and the offset
/// at which the lexer stands afterwards.
pub ghost struct Scan {
    pub item: Result<TokenView, LexError>,
    pub next: int,
}

/// The scan that yields a token of kind `typ` from `start` to `end`.
pub open spec fn scanned(typ: TokenKind, start: int, end: int) -> Scan {
    Scan { item: Ok(TokenView { typ, span: span_of(start, end) }), next: end }
}

/// The scan that fails with `kind` on the text from `start` to `end`.
pub open spec fn failed(kind: LexErrorKind, start: int, end: int) -> Scan {
    Scan { item: Err(LexError { kind, span: span_of(start, end) }), next: end }
}

/// A digit follows at offset `i` of `src`.
pub open spec fn digit_follows(src: Seq<u8>, i: int) -> bool {
    match peek_at(src, i) {
        Some(c) => is_ascii_digit(c),
        None => false,
    }
}

/// The numeric literal that starts at `start`, whose first character, a
/// digit or a minus sign, ends at `after`: a run of digits, then, where a
/// point follows, the point and a further run of digits. With a point the
/// literal keeps its text; without one it is an integer, which must fit in
/// 64 bits.
pub open spec fn number_at(src: Seq<u8>, start: int, after: int) -> Scan {
    let whole_end = run_end(src, after, CharClass::Digit);
    if peek_at(src, whole_end) == Some('.') {
        let end = run_end(src, whole_end + 1, CharClass::Digit);
        scanned(TokenKind::FloatLit(text_of(src, start, end)), start, end)
    } else {
        match parsed_integer(src.subrange(start, whole_end)) {
            Some(value) => scanned(TokenKind::IntegerLit(value as int), start, whole_end),
            None => failed(LexErrorKind::IntegerOutOfRange, start, whole_end),
        }
    }
}

/// The token that starts at offset `start` of `src`, where no whitespace
/// stands. The first character decides, with one more character looked at
/// after a minus sign:
/// two hyphens begin a comment, which runs to the end of the line; a digit,
/// or a minus sign before a digit, begins a number; a letter or an underscore
/// begins a word, which is as long as it can be and is a keyword or an
/// identifier; the punctuation marks are tokens of one character; a double
/// quote and every other character are errors. At the end of `src` stands
/// the end-of-input token.
#[verifier::opaque]
pub open spec fn token_at(src: Seq<u8>, start: int) -> Scan {
    match peek_at(src, start) {
        None => scanned(TokenKind::EOF, start, start),
        Some(c) => {
            let after = start + width_at(src, start);
            if c == '-' && peek_at(src, after) == Some('-') {
                let end = run_end(src, after, CharClass::WithinLine);
                scanned(TokenKind::Comment(text_of(src, start, end)), start, end)
            } else if is_ascii_digit(c) || (c == '-' && digit_follows(src, after)) {
                number_at(src, start, after)
            } else if punctuation_kind(c) is Some {
                scanned(punctuation_kind(c)->0, start, after)
            } else if is_ident_start(c) {
                let end = run_end(src, after, CharClass::Identifier);
                scanned(word_kind(text_of(src, start, end)), start, end)
            } else if c == '"' {
                failed(LexErrorKind::StringLiteral, start, after)
            } else {
                failed(LexErrorKind::UnexpectedChar(c), start, after)
            }
        },
    }
}

/// The next token of `src` from offset `pos` on: whitespace is skipped, and
/// the token that then starts is read.
pub open spec fn scan_token(src: Seq<u8>, pos: int) -> Scan {
    token_at(src, run_end(src, pos, CharClass::Space))
}

/// The tokens of `src` from offset `pos` on, up to and with the end-of-input
/// token, or the first error. Behind a token that is not the end of input
/// the lexer has always moved on and stands within the text
/// (`lemma_scan_progress`), so the reading goes on from there.
pub open spec fn lex_from(src: Seq<u8>, pos: int) -> Result<Seq<TokenView>, LexError>
    decreases src.len() - pos,
{
    let scan = scan_token(src, pos);
    match scan.item {
        Err(error) => Err(error),
        Ok(token) => if token.typ is EOF || !(pos < scan.next <= src.len()) {
            Ok(seq![token])
        } else {
            match lex_from(src, scan.next) {
                Ok(rest) => Ok(seq![token] + rest),
                Err(error) => Err(error),
            }
        },
    }
}

/// The tokens of the text `src`, or the first error in it.
pub open spec fn lex(src: Seq<u8>) -> Result<Seq<TokenView>, LexError> {
    lex_from(src, 0)
}

/// The model of what a step of the lexer returns.
pub open spec fn outcome_view<'a>(outcome: Result<Token<'a>, LexError>) -> Result<
    TokenView,
    LexError,
> {
    match outcome {
        Ok(token) => Ok(token@),
        Err(error) => Err(error),
    }
}

/// The model of what tokenizing a text returns.
pub open spec fn tokens_view<'a>(outcome: Result<Vec<Token<'a>>, LexError>) -> Result<
    Seq<TokenView>,
    LexError,
> {
    match outcome {
        Ok(tokens) => Ok(token_views(tokens@)),
        Err(error) => Err(error),
    }
}

/// A run ends at a position within the text, and not before it starts.
pub proof fn lemma_run_end_position(src: Seq<u8>, from: int, class: CharClass)
    requires
        valid_utf8(src),
        is_position(src, from),
    ensures
        from <= run_end(src, from, class) <= src.len(),
        is_position(src, run_end(src, from, class)),
    decreases src.len() - from,
{
    if from < src.len() && class.holds(char_at(src, from)) {
        lemma_char_step(src, from);
        lemma_run_end_position(src, from + width_at(src, from), class);
    }
}

/// The tokens `front`, followed by what `rest` holds: more tokens, or the
/// error that ends it all.
pub open spec fn prepend(front: Seq<TokenView>, rest: Result<Seq<TokenView>, LexError>) -> Result<
    Seq<TokenView>,
    LexError,
> {
    match rest {
        Ok(more) => Ok(front + more),
        Err(error) => Err(error),
    }
}

/// A character of ASCII at a position takes one byte, and the next offset is
/// a position.
pub proof fn lemma_ascii_char(src: Seq<u8>, i: int)
    requires
        valid_utf8(src),
        is_position(src, i),
        i < src.len(),
        char_at(src, i) <= '\u{7f}',
    ensures
        width_at(src, i) == 1,
        src[i] < 0x80,
        char_at(src, i) as u8 == src[i],
        is_position(src, i + 1),
{
    if src[i] >= 0x80 {
        lemma_wide_at(src, i);
    }
    lemma_ascii_at(src, i);
}

/// Reading a token never moves the cursor back or beyond the text, and moves
/// it forward unless the token is the end of input.
pub proof fn lemma_scan_progress(src: Seq<u8>, pos: int)
    requires
        valid_utf8(src),
        is_position(src, pos),
    ensures
        pos <= scan_token(src, pos).next <= src.len(),
        is_position(src, scan_token(src, pos).next),
        match scan_token(src, pos).item {
            Ok(token) => token.typ is EOF <==> scan_token(src, pos).next == src.len()
                && run_end(src, pos, CharClass::Space) == src.len(),
            Err(_) => pos < scan_token(src, pos).next,
        },
        scan_token(src, pos).item is Ok && !(scan_token(src, pos).item->Ok_0.typ is EOF) ==> pos
            < scan_token(src, pos).next,
{
    reveal(token_at);
    lemma_run_end_position(src, pos, CharClass::Space);
    let start = run_end(src, pos, CharClass::Space);
    if start < src.len() {
        lemma_char_step(src, start);
        let c = char_at(src, start);
        let after = start + width_at(src, start);
        lemma_run_end_position(src, after, CharClass::WithinLine);
        lemma_run_end_position(src, after, CharClass::Identifier);
        lemma_run_end_position(src, after, CharClass::Digit);
        let whole_end = run_end(src, after, CharClass::Digit);
        if peek_at(src, whole_end) == Some('.') {
            lemma_ascii_char(src, whole_end);
            lemma_run_end_position(src, whole_end + 1, CharClass::Digit);
        }
        lemma_word_is_no_end(text_of(src, start, run_end(src, after, CharClass::Identifier)));
    }
}

/// A word is never the end of input.
pub proof fn lemma_word_is_no_end(text: Seq<char>)
    ensures
        !(word_kind(text) is EOF),
{
}

/// The single-character token that `c` makes, if it makes one.
pub fn punctuation(c: char) -> (typ: Option<TokenType<'static>>)
    ensures
        match typ {
            Some(t) => punctuation_kind(c) == Some(t@),
            None => punctuation_kind(c) is None,
        },
{
    if c == '(' {
        Some(TokenType::Lparen)
    } else if c == ')' {
        Some(TokenType::RParen)
    } else if c == '{' {
        Some(TokenType::LBrace)
    } else if c == '}' {
        Some(TokenType::RBrace)
    } else if c == ':' {
        Some(TokenType::Colon)
    } else if c == ',' {
        Some(TokenType::Comma)
    } else if c == '.' {
        Some(TokenType::Dot)
    } else if c == '+' {
        Some(TokenType::Plus)
    } else if c == '-' {
        Some(TokenType::Minus)
    } else if c == '*' {
        Some(TokenType::Star)
    } else if c == '%' {
        Some(TokenType::Percent)
    } else if c == '/' {
        Some(TokenType::Slash)
    } else if c == '\\' {
        Some(TokenType::BackSlash)
    } else if c == '=' {
        Some(TokenType::Equal)
    } else if c == '>' {
        Some(TokenType::RAngleBracket)
    } else if c == '<' {
        Some(TokenType::LAngleBracket)
    } else if c == '!' {
        Some(TokenType::Exclam)
    } else if c == '|' {
        Some(TokenType::Vbar)
    } else if c == '&' {
        Some(TokenType::Amper)
    } else {
        None
    }
}

/// A reader of tokens: a source text and a cursor into it. The cursor always
/// stands where a character starts, or at the end.
#[derive(Debug)]
pub struct Lexer<'a> {
    input: &'a str,
    idx: usize,
}

impl<'a> Lexer<'a> {
    #[verifier::type_invariant]
    spec fn well_formed(self) -> bool {
        is_position(self.input.spec_bytes(), self.idx as int)
    }

    /// The bytes of the text being read.
    pub closed spec fn source(self) -> Seq<u8> {
        self.input.spec_bytes()
    }

    /// The offset of the next byte to read.
    pub closed spec fn cursor(self) -> int {
        self.idx as int
    }

    /// A lexer at the start of `input`.
    pub fn new(input: &'a str) -> (lexer: Self)
        ensures
            lexer.source() == input.spec_bytes(),
            lexer.cursor() == 0,
    {
        proof {
            encode_utf8_valid_utf8(input@);
        }
        Lexer { input, idx: 0 }
    }

    /// The character at the cursor, if the text has not ended. The lexer
    /// stays where it is.
    pub fn peek_char(&mut self) -> (next: Option<char>)
        ensures
            *final(self) == *old(self),
            next == peek_at(old(self).source(), old(self).cursor()),
    {
        proof {
            use_type_invariant(&*self);
            encode_utf8_valid_utf8(self.input@);
        }
        let bytes = self.input.as_bytes();
        if self.idx < bytes.len() {
            let (c, _) = decode_char(bytes, self.idx);
            Some(c)
        } else {
            None
        }
    }

    /// Reads the character at the cursor and moves behind it. At the end of
    /// the text nothing is read and the lexer stays where it is.
    pub fn advance_char(&mut self) -> (next: Option<char>)
        ensures
            final(self).source() == old(self).source(),
            next == peek_at(old(self).source(), old(self).cursor()),
            final(self).cursor() == if next is Some {
                old(self).cursor() + width_at(old(self).source(), old(self).cursor())
            } else {
                old(self).cursor()
            },
            is_position(old(self).source(), old(self).cursor()),
            is_position(final(self).source(), final(self).cursor()),
    {
        proof {
            use_type_invariant(&*self);
            encode_utf8_valid_utf8(self.input@);
        }
        let bytes = self.input.as_bytes();
        if self.idx < bytes.len() {
            let (c, width) = decode_char(bytes, self.idx);
            self.idx = self.idx + width;
            Some(c)
        } else {
            None
        }
    }

    /// Moves behind the character at the cursor, if there is one.
    pub fn consume_char(&mut self)
        ensures
            final(self).source() == old(self).source(),
            final(self).cursor() == if old(self).cursor() < old(self).source().len() {
                old(self).cursor() + width_at(old(self).source(), old(self).cursor())
            } else {
                old(self).cursor()
            },
            is_position(final(self).source(), final(self).cursor()),
    {
        let _ = self.advance_char();
    }

    /// The offset of the byte just before the cursor: where the token
    /// starts, once its first character, of one byte, has been read.
    pub fn tok_id(&self) -> (offset: usize)
        requires
            self.cursor() > 0,
        ensures
            offset == self.cursor() - 1,
    {
        self.idx - 1
    }

    /// Moves behind the longest run of characters of `class` that starts at
    /// the cursor.
    pub fn skip_while(&mut self, class: CharClass)
        ensures
            final(self).source() == old(self).source(),
            final(self).cursor() == run_end(old(self).source(), old(self).cursor(), class),
            is_position(final(self).source(), final(self).cursor()),
    {
        let ghost src = self.source();
        let ghost goal = run_end(src, self.cursor(), class);
        proof {
            use_type_invariant(&*self);
            encode_utf8_valid_utf8(self.input@);
        }
        loop
            invariant
                self.source() == src,
                valid_utf8(src),
                run_end(src, self.cursor(), class) == goal,
                is_position(src, self.cursor()),
            ensures
                self.source() == src,
                self.cursor() == goal,
                is_position(src, self.cursor()),
            decreases src.len() - self.cursor(),
        {
            match self.peek_char() {
                Some(c) => {
                    if class.contains(c) {
                        proof {
                            lemma_char_step(src, self.cursor());
                        }
                        self.consume_char();
                    } else {
                        break ;
                    }
                },
                None => {
                    break ;
                },
            }
        }
    }

    /// The text of the source between two positions of it.
    fn slice(&self, start: usize, end: usize) -> (text: &'a str)
        requires
            start <= end,
            is_position(self.source(), start as int),
            is_position(self.source(), end as int),
        ensures
            text@ == text_of(self.source(), start as int, end as int),
            text.spec_bytes() == self.source().subrange(start as int, end as int),
    {
        substring(self.input, start, end)
    }

    /// Reads a comment, whose first hyphen stands just before the cursor:
    /// all up to the end of the line.
    pub fn consume_comment(&mut self) -> (token: Token<'a>)
        requires
            old(self).cursor() > 0,
            is_position(old(self).source(), old(self).cursor() - 1),
        ensures
            final(self).source() == old(self).source(),
            final(self).cursor() == run_end(
                old(self).source(),
                old(self).cursor(),
                CharClass::WithinLine,
            ),
            token@ == (TokenView {
                typ: TokenKind::Comment(
                    text_of(old(self).source(), old(self).cursor() - 1, final(self).cursor()),
                ),
                span: span_of(old(self).cursor() - 1, final(self).cursor()),
            }),
    {
        let start = self.tok_id();
        proof {
            use_type_invariant(&*self);
            encode_utf8_valid_utf8(self.input@);
            lemma_run_end_position(self.source(), self.cursor(), CharClass::WithinLine);
        }
        self.skip_while(CharClass::WithinLine);
        let end = self.idx;
        Token { typ: TokenType::Comment(self.slice(start, end)), span: Span::new(start, end) }
    }

    /// Reads a numeric literal, whose first character, a digit or a minus
    /// sign, stands just before the cursor.
    pub fn consume_number(&mut self) -> (result: Result<Token<'a>, LexError>)
        requires
            old(self).cursor() > 0,
            is_position(old(self).source(), old(self).cursor() - 1),
        ensures
            final(self).source() == old(self).source(),
            final(self).cursor() == number_at(
                old(self).source(),
                old(self).cursor() - 1,
                old(self).cursor(),
            ).next,
            outcome_view(result) == number_at(
                old(self).source(),
                old(self).cursor() - 1,
                old(self).cursor(),
            ).item,
    {
        let start = self.tok_id();
        let ghost src = self.source();
        proof {
            use_type_invariant(&*self);
            encode_utf8_valid_utf8(self.input@);
            lemma_run_end_position(src, self.cursor(), CharClass::Digit);
        }
        self.skip_while(CharClass::Digit);
        let whole_end = self.idx;
        let point = match self.peek_char() {
            Some(c) => c == '.',
            None => false,
        };
        if point {
            proof {
                lemma_ascii_char(src, whole_end as int);
                lemma_run_end_position(src, whole_end + 1, CharClass::Digit);
            }
            self.consume_char();
            self.skip_while(CharClass::Digit);
            let end = self.idx;
            Ok(Token { typ: TokenType::FloatLit(self.slice(start, end)), span: Span::new(start, end) })
        } else {
            let bytes = self.input.as_bytes();
            match parse_integer(slice_subrange(bytes, start, whole_end)) {
                Some(value) => Ok(
                    Token { typ: TokenType::IntegerLit(value), span: Span::new(start, whole_end) },
                ),
                None => Err(
                    LexError {
                        kind: LexErrorKind::IntegerOutOfRange,
                        span: Span::new(start, whole_end),
                    },
                ),
            }
        }
    }

    /// Reads the next token: skips whitespace and reads the token that then
    /// starts, or reports the character or the literal that is in the way.
    /// The cursor moves behind what was read. At the end of the text the
    /// token is the end of input, and the cursor stays.
    pub fn advance_token(&mut self) -> (result: Result<Token<'a>, LexError>)
        ensures
            final(self).source() == old(self).source(),
            final(self).cursor() == scan_token(old(self).source(), old(self).cursor()).next,
            outcome_view(result) == scan_token(old(self).source(), old(self).cursor()).item,
            is_position(final(self).source(), final(self).cursor()),
    {
        let ghost src = self.source();
        proof {
            reveal(token_at);
            use_type_invariant(&*self);
            encode_utf8_valid_utf8(self.input@);
        }
        self.skip_while(CharClass::Space);
        let start = self.idx;
        let next = match self.advance_char() {
            Some(c) => c,
            None => {
                return Ok(Token { typ: TokenType::EOF, span: Span::new(start, start) });
            },
        };
        let after = self.idx;
        proof {
            lemma_char_step(src, start as int);
            use_type_invariant(&*self);
        }
        if next == '-' {
            proof {
                lemma_ascii_char(src, start as int);
            }
            match self.peek_char() {
                Some(c) => {
                    if c == '-' {
                        let token = self.consume_comment();
                        proof {
                            use_type_invariant(&*self);
                        }
                        return Ok(token);
                    }
                    if is_decimal_digit(c) {
                        let result = self.consume_number();
                        proof {
                            use_type_invariant(&*self);
                        }
                        return result;
                    }
                },
                None => {},
            }
        }
        if is_decimal_digit(next) {
            proof {
                lemma_ascii_char(src, start as int);
            }
            let result = self.consume_number();
            proof {
                use_type_invariant(&*self);
            }
            return result;
        }
        match punctuation(next) {
            Some(typ) => {
                return Ok(Token { typ, span: Span::new(start, after) });
            },
            None => {},
        }
        if is_valid_ident_start(next) {
            proof {
                lemma_run_end_position(src, after as int, CharClass::Identifier);
            }
            self.skip_while(CharClass::Identifier);
            let end = self.idx;
            let text = self.slice(start, end);
            let typ = match try_into_keyword(text) {
                Some(keyword) => keyword,
                None => TokenType::Ident(text),
            };
            return Ok(Token { typ, span: Span::new(start, end) });
        }
        if next == '"' {
            return Err(LexError { kind: LexErrorKind::StringLiteral, span: Span::new(start, after) });
        }
        Err(LexError { kind: LexErrorKind::UnexpectedChar(next), span: Span::new(start, after) })
    }
}

/// The offset at which the longest run of characters of `class` that starts
/// at offset `from` of `input` ends.
pub fn run_from(input: &str, from: usize, class: CharClass) -> (end: usize)
    requires
        is_position(input.spec_bytes(), from as int),
    ensures
        end == run_end(input.spec_bytes(), from as int, class),
        from <= end <= input.spec_bytes().len(),
        is_position(input.spec_bytes(), end as int),
{
    proof {
        encode_utf8_valid_utf8(input@);
        lemma_run_end_position(input.spec_bytes(), from as int, class);
    }
    let mut lexer = Lexer { input, idx: from };
    lexer.skip_while(class);
    lexer.idx
}

/// The tokens of `input`, the last of them the end of input, or the first
/// lexical error in it.
pub fn tokenize<'a>(input: &'a str) -> (result: Result<Vec<Token<'a>>, LexError>)
    ensures
        tokens_view(result) == lex(input.spec_bytes()),
{
    let mut lexer = Lexer::new(input);
    let mut tokens: Vec<Token<'a>> = Vec::new();
    let ghost src = input.spec_bytes();
    proof {
        encode_utf8_valid_utf8(input@);
    }
    loop
        invariant
            lexer.source() == src,
            src == input.spec_bytes(),
            valid_utf8(src),
            is_position(src, lexer.cursor()),
            lex(src) == prepend(token_views(tokens@), lex_from(src, lexer.cursor())),
        decreases src.len() - lexer.cursor(),
    {
        let ghost pos = lexer.cursor();
        let ghost before = token_views(tokens@);
        proof {
            lemma_scan_progress(src, pos);
        }
        match lexer.advance_token() {
            Err(error) => {
                return Err(error);
            },
            Ok(token) => {
                let done = token.typ.tag() == TokenTag::EOF;
                tokens.push(token);
                proof {
                    assert(token_views(tokens@) =~= before.push(token@));
                }
                if done {
                    proof {
                        assert(before + seq![token@] =~= before.push(token@));
                    }
                    return Ok(tokens);
                }
                proof {
                    let rest = lex_from(src, lexer.cursor());
                    match rest {
                        Ok(more) => {
                            assert(before + (seq![token@] + more) =~= before.push(token@) + more);
                        },
                        Err(_) => {},
                    }
                }
            },
        }
    }
}

} // verus!
