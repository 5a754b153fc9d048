//! Tokens: the lexical units of the language.

use crate::chars::str_eq;
use crate::number::{decimal_text, push_integer};
use crate::span::Span;
use vstd::prelude::*;
use vstd::string::*;

verus! {

/// The kinds of token that the language knows. A kind that depends on the
/// source text carries that text, borrowed from the source, or its value.
#[derive(Clone, Copy, Debug, PartialEq)]
pub enum TokenType<'a> {
    /// An identifier: the name of a value or of a type.
    Ident(&'a str),
    /// An integer literal, with its value.
    IntegerLit(i64),
    /// A literal with a decimal point, with its text as written.
    FloatLit(&'a str),
    /// A string literal, with the text between its quotes.
    StringLit(&'a str),
    /// A comment, with its text from the two hyphens on.
    Comment(&'a str),
    /// `(`
    Lparen,
    /// `)`
    RParen,
    /// `:`
    Colon,
    /// `{`
    LBrace,
    /// `}`
    RBrace,
    /// `<`
    LAngleBracket,
    /// `>`
    RAngleBracket,
    /// `=`
    Equal,
    /// `,`
    Comma,
    /// `.`
    Dot,
    /// `+`
    Plus,
    /// `-`
    Minus,
    /// `*`
    Star,
    /// `%`
    Percent,
    /// `|`
    Vbar,
    /// `&`
    Amper,
    /// `!`
    Exclam,
    /// `/`
    Slash,
    /// `\`
    BackSlash,
    /// The keyword `module`.
    Module,
    /// The keyword `type`.
    Type,
    /// The keyword `typealias`.
    TypeAlias,
    /// The keyword `exposing`.
    Exposing,
    /// The keyword `import`.
    Import,
    /// The end of the input.
    EOF,
}

/// A token: its kind and the place in the source where it stands.
#[derive(Clone, Copy, Debug, PartialEq)]
pub struct Token<'a> {
    pub typ: TokenType<'a>,
    pub span: Span,
}

/// The kind of a token without what it carries.
#[derive(Clone, Copy, Debug, PartialEq, Eq, Structural)]
pub enum TokenTag {
    Ident,
    IntegerLit,
    FloatLit,
    StringLit,
    Comment,
    Lparen,
    RParen,
    Colon,
    LBrace,
    RBrace,
    LAngleBracket,
    RAngleBracket,
    Equal,
    Comma,
    Dot,
    Plus,
    Minus,
    Star,
    Percent,
    Vbar,
    Amper,
    Exclam,
    Slash,
    BackSlash,
    Module,
    Type,
    TypeAlias,
    Exposing,
    Import,
    EOF,
}

/// The mathematical model of a token's kind: texts are sequences of
/// characters and an integer literal is its value.
pub ghost enum TokenKind {
    Ident(Seq<char>),
    IntegerLit(int),
    FloatLit(Seq<char>),
    StringLit(Seq<char>),
    Comment(Seq<char>),
    Lparen,
    RParen,
    Colon,
    LBrace,
    RBrace,
    LAngleBracket,
    RAngleBracket,
    Equal,
    Comma,
    Dot,
    Plus,
    Minus,
    Star,
    Percent,
    Vbar,
    Amper,
    Exclam,
    Slash,
    BackSlash,
    Module,
    Type,
    TypeAlias,
    Exposing,
    Import,
    EOF,
}

/// The mathematical model of a token.
pub ghost struct TokenView {
    pub typ: TokenKind,
    pub span: Span,
}

impl TokenKind {
    /// The kind without what it carries.
    pub open spec fn tag(self) -> TokenTag {
        match self {
            TokenKind::Ident(_) => TokenTag::Ident,
            TokenKind::IntegerLit(_) => TokenTag::IntegerLit,
            TokenKind::FloatLit(_) => TokenTag::FloatLit,
            TokenKind::StringLit(_) => TokenTag::StringLit,
            TokenKind::Comment(_) => TokenTag::Comment,
            TokenKind::Lparen => TokenTag::Lparen,
            TokenKind::RParen => TokenTag::RParen,
            TokenKind::Colon => TokenTag::Colon,
            TokenKind::LBrace => TokenTag::LBrace,
            TokenKind::RBrace => TokenTag::RBrace,
            TokenKind::LAngleBracket => TokenTag::LAngleBracket,
            TokenKind::RAngleBracket => TokenTag::RAngleBracket,
            TokenKind::Equal => TokenTag::Equal,
            TokenKind::Comma => TokenTag::Comma,
            TokenKind::Dot => TokenTag::Dot,
            TokenKind::Plus => TokenTag::Plus,
            TokenKind::Minus => TokenTag::Minus,
            TokenKind::Star => TokenTag::Star,
            TokenKind::Percent => TokenTag::Percent,
            TokenKind::Vbar => TokenTag::Vbar,
            TokenKind::Amper => TokenTag::Amper,
            TokenKind::Exclam => TokenTag::Exclam,
            TokenKind::Slash => TokenTag::Slash,
            TokenKind::BackSlash => TokenTag::BackSlash,
            TokenKind::Module => TokenTag::Module,
            TokenKind::Type => TokenTag::Type,
            TokenKind::TypeAlias => TokenTag::TypeAlias,
            TokenKind::Exposing => TokenTag::Exposing,
            TokenKind::Import => TokenTag::Import,
            TokenKind::EOF => TokenTag::EOF,
        }
    }
}

impl TokenKind {
    /// The kind as it is shown to a reader: a name and a literal with a
    /// point as written, an integer in base ten, the text of a string or of
    /// a comment between double quotes, a mark or a keyword as it is spelt,
    /// and the end of input as `EOF`.
    pub open spec fn shown(self) -> Seq<char> {
        match self {
            TokenKind::Ident(text) => text,
            TokenKind::IntegerLit(value) => decimal_text(value),
            TokenKind::FloatLit(text) => text,
            TokenKind::StringLit(text) => "\""@ + text + "\""@,
            TokenKind::Comment(text) => "\""@ + text + "\""@,
            TokenKind::Lparen => "("@,
            TokenKind::RParen => ")"@,
            TokenKind::Colon => ":"@,
            TokenKind::LBrace => "{"@,
            TokenKind::RBrace => "}"@,
            TokenKind::LAngleBracket => "<"@,
            TokenKind::RAngleBracket => ">"@,
            TokenKind::Equal => "="@,
            TokenKind::Comma => ","@,
            TokenKind::Dot => "."@,
            TokenKind::Plus => "+"@,
            TokenKind::Minus => "-"@,
            TokenKind::Star => "*"@,
            TokenKind::Percent => "%"@,
            TokenKind::Vbar => "|"@,
            TokenKind::Amper => "&"@,
            TokenKind::Exclam => "!"@,
            TokenKind::Slash => "/"@,
            TokenKind::BackSlash => "\\"@,
            TokenKind::Module => "module"@,
            TokenKind::Type => "type"@,
            TokenKind::TypeAlias => "typealias"@,
            TokenKind::Exposing => "exposing"@,
            TokenKind::Import => "import"@,
            TokenKind::EOF => "EOF"@,
        }
    }
}

impl<'a> View for TokenType<'a> {
    type V = TokenKind;

    open spec fn view(&self) -> TokenKind {
        match *self {
            TokenType::Ident(text) => TokenKind::Ident(text@),
            TokenType::IntegerLit(value) => TokenKind::IntegerLit(value as int),
            TokenType::FloatLit(text) => TokenKind::FloatLit(text@),
            TokenType::StringLit(text) => TokenKind::StringLit(text@),
            TokenType::Comment(text) => TokenKind::Comment(text@),
            TokenType::Lparen => TokenKind::Lparen,
            TokenType::RParen => TokenKind::RParen,
            TokenType::Colon => TokenKind::Colon,
            TokenType::LBrace => TokenKind::LBrace,
            TokenType::RBrace => TokenKind::RBrace,
            TokenType::LAngleBracket => TokenKind::LAngleBracket,
            TokenType::RAngleBracket => TokenKind::RAngleBracket,
            TokenType::Equal => TokenKind::Equal,
            TokenType::Comma => TokenKind::Comma,
            TokenType::Dot => TokenKind::Dot,
            TokenType::Plus => TokenKind::Plus,
            TokenType::Minus => TokenKind::Minus,
            TokenType::Star => TokenKind::Star,
            TokenType::Percent => TokenKind::Percent,
            TokenType::Vbar => TokenKind::Vbar,
            TokenType::Amper => TokenKind::Amper,
            TokenType::Exclam => TokenKind::Exclam,
            TokenType::Slash => TokenKind::Slash,
            TokenType::BackSlash => TokenKind::BackSlash,
            TokenType::Module => TokenKind::Module,
            TokenType::Type => TokenKind::Type,
            TokenType::TypeAlias => TokenKind::TypeAlias,
            TokenType::Exposing => TokenKind::Exposing,
            TokenType::Import => TokenKind::Import,
            TokenType::EOF => TokenKind::EOF,
        }
    }
}

impl<'a> View for Token<'a> {
    type V = TokenView;

    open spec fn view(&self) -> TokenView {
        TokenView { typ: self.typ@, span: self.span }
    }
}

/// The models of a sequence of tokens, one by one.
pub open spec fn token_views<'a>(tokens: Seq<Token<'a>>) -> Seq<TokenView> {
    Seq::new(tokens.len(), |i: int| tokens[i]@)
}

impl<'a> TokenType<'a> {
    /// The kind without what it carries.
    pub fn tag(&self) -> (tag: TokenTag)
        ensures
            tag == self@.tag(),
    {
        match self {
            TokenType::Ident(_) => TokenTag::Ident,
            TokenType::IntegerLit(_) => TokenTag::IntegerLit,
            TokenType::FloatLit(_) => TokenTag::FloatLit,
            TokenType::StringLit(_) => TokenTag::StringLit,
            TokenType::Comment(_) => TokenTag::Comment,
            TokenType::Lparen => TokenTag::Lparen,
            TokenType::RParen => TokenTag::RParen,
            TokenType::Colon => TokenTag::Colon,
            TokenType::LBrace => TokenTag::LBrace,
            TokenType::RBrace => TokenTag::RBrace,
            TokenType::LAngleBracket => TokenTag::LAngleBracket,
            TokenType::RAngleBracket => TokenTag::RAngleBracket,
            TokenType::Equal => TokenTag::Equal,
            TokenType::Comma => TokenTag::Comma,
            TokenType::Dot => TokenTag::Dot,
            TokenType::Plus => TokenTag::Plus,
            TokenType::Minus => TokenTag::Minus,
            TokenType::Star => TokenTag::Star,
            TokenType::Percent => TokenTag::Percent,
            TokenType::Vbar => TokenTag::Vbar,
            TokenType::Amper => TokenTag::Amper,
            TokenType::Exclam => TokenTag::Exclam,
            TokenType::Slash => TokenTag::Slash,
            TokenType::BackSlash => TokenTag::BackSlash,
            TokenType::Module => TokenTag::Module,
            TokenType::Type => TokenTag::Type,
            TokenType::TypeAlias => TokenTag::TypeAlias,
            TokenType::Exposing => TokenTag::Exposing,
            TokenType::Import => TokenTag::Import,
            TokenType::EOF => TokenTag::EOF,
        }
    }

    /// The kind as it is shown to a reader.
    pub fn to_string(&self) -> (text: String)
        ensures
            text@ == self@.shown(),
    {
        match *self {
            TokenType::Ident(name) => String::from_str(name),
            TokenType::IntegerLit(value) => {
                let mut text = String::new();
                push_integer(&mut text, value);
                assert(text@ =~= decimal_text(value as int));
                text
            },
            TokenType::FloatLit(literal) => String::from_str(literal),
            TokenType::StringLit(content) => quoted(content),
            TokenType::Comment(content) => quoted(content),
            TokenType::Lparen => String::from_str("("),
            TokenType::RParen => String::from_str(")"),
            TokenType::Colon => String::from_str(":"),
            TokenType::LBrace => String::from_str("{"),
            TokenType::RBrace => String::from_str("}"),
            TokenType::LAngleBracket => String::from_str("<"),
            TokenType::RAngleBracket => String::from_str(">"),
            TokenType::Equal => String::from_str("="),
            TokenType::Comma => String::from_str(","),
            TokenType::Dot => String::from_str("."),
            TokenType::Plus => String::from_str("+"),
            TokenType::Minus => String::from_str("-"),
            TokenType::Star => String::from_str("*"),
            TokenType::Percent => String::from_str("%"),
            TokenType::Vbar => String::from_str("|"),
            TokenType::Amper => String::from_str("&"),
            TokenType::Exclam => String::from_str("!"),
            TokenType::Slash => String::from_str("/"),
            TokenType::BackSlash => String::from_str("\\"),
            TokenType::Module => String::from_str("module"),
            TokenType::Type => String::from_str("type"),
            TokenType::TypeAlias => String::from_str("typealias"),
            TokenType::Exposing => String::from_str("exposing"),
            TokenType::Import => String::from_str("import"),
            TokenType::EOF => String::from_str("EOF"),
        }
    }

    /// Decides whether two kinds are the same, what they carry included.
    pub fn same(&self, other: &TokenType<'_>) -> (same: bool)
        ensures
            same == (self@ == other@),
    {
        match (*self, *other) {
            (TokenType::Ident(a), TokenType::Ident(b)) => str_eq(a, b),
            (TokenType::IntegerLit(a), TokenType::IntegerLit(b)) => a == b,
            (TokenType::FloatLit(a), TokenType::FloatLit(b)) => str_eq(a, b),
            (TokenType::StringLit(a), TokenType::StringLit(b)) => str_eq(a, b),
            (TokenType::Comment(a), TokenType::Comment(b)) => str_eq(a, b),
            _ => self.tag() == other.tag(),
        }
    }
}

/// The text `content` between double quotes.
pub fn quoted(content: &str) -> (text: String)
    ensures
        text@ == "\""@ + content@ + "\""@,
{
    let mut text = String::from_str("\"");
    text.append(content);
    text.append("\"");
    text
}

/// The keyword that `text` spells, if it spells one.
pub open spec fn keyword_kind(text: Seq<char>) -> Option<TokenKind> {
    if text == "module"@ {
        Some(TokenKind::Module)
    } else if text == "type"@ {
        Some(TokenKind::Type)
    } else if text == "typealias"@ {
        Some(TokenKind::TypeAlias)
    } else if text == "exposing"@ {
        Some(TokenKind::Exposing)
    } else if text == "import"@ {
        Some(TokenKind::Import)
    } else {
        None
    }
}

/// The kind of the word `text`: its keyword, or else an identifier.
pub open spec fn word_kind(text: Seq<char>) -> TokenKind {
    match keyword_kind(text) {
        Some(kind) => kind,
        None => TokenKind::Ident(text),
    }
}

/// Looks `text` up in the table of keywords.
pub fn try_into_keyword<'a>(text: &'a str) -> (found: Option<TokenType<'a>>)
    ensures
        match found {
            Some(typ) => keyword_kind(text@) == Some(typ@),
            None => keyword_kind(text@) is None,
        },
{
    if str_eq(text, "module") {
        Some(TokenType::Module)
    } else if str_eq(text, "type") {
        Some(TokenType::Type)
    } else if str_eq(text, "typealias") {
        Some(TokenType::TypeAlias)
    } else if str_eq(text, "exposing") {
        Some(TokenType::Exposing)
    } else if str_eq(text, "import") {
        Some(TokenType::Import)
    } else {
        None
    }
}

} // verus!
