//! The rules of the library give what the same grammar gives when it is
//! written with the combinators of `nom`.

use meri::ast::{Definition, Expression, FunctionSignature, Ident, Pattern, TypePath};
use meri::lexer::tokenize;
use meri::parser::{
    parse_function_definition, parse_function_params, parse_function_signature,
    parse_single_parameter,
};
use meri::token::{Token, TokenType};
use nom::branch::alt;
use nom::bytes::complete::{take_while, take_while1};
use nom::character::complete::alpha1;
use nom::combinator::opt;
use nom::error::{Error, ErrorKind, ParseError};
use nom::multi::{separated_list0, separated_list1};
use nom::sequence::delimited;
use nom::{IResult, Parser};
use nom_supreme::error::ErrorTree;
use nom_supreme::tag::complete::tag;
use nom_supreme::ParserExt;

type Tokens<'a, 'b> = &'a [Token<'b>];
type TokenResult<'a, 'b, T> = IResult<Tokens<'a, 'b>, T, Error<Tokens<'a, 'b>>>;

fn nom_token<'a, 'b: 'a>(
    tok_typ: TokenType<'static>,
) -> impl Fn(Tokens<'a, 'b>) -> TokenResult<'a, 'b, Token<'b>> {
    move |input| match input.split_first() {
        None => Err(nom::Err::Error(Error::from_error_kind(input, ErrorKind::Eof))),
        Some((t, rest)) if t.typ == tok_typ => Ok((rest, *t)),
        Some(_) => Err(nom::Err::Error(Error::from_error_kind(input, ErrorKind::Tag))),
    }
}

fn nom_ident<'a, 'b>(input: Tokens<'a, 'b>) -> TokenResult<'a, 'b, Ident<'b>> {
    match input.split_first() {
        None => Err(nom::Err::Error(Error::from_error_kind(input, ErrorKind::Eof))),
        Some((
            Token {
                typ: TokenType::Ident(name),
                ..
            },
            rest,
        )) => Ok((rest, Ident(name))),
        Some(_) => Err(nom::Err::Error(Error::from_error_kind(input, ErrorKind::Tag))),
    }
}

fn nom_type_path<'a, 'b>(input: Tokens<'a, 'b>) -> TokenResult<'a, 'b, TypePath<'b>> {
    nom_ident(input).map(|(rest, ident)| (rest, TypePath { ident }))
}

fn nom_pattern<'a, 'b>(input: Tokens<'a, 'b>) -> TokenResult<'a, 'b, Pattern<'b>> {
    nom_ident(input).map(|(rest, ident)| (rest, Pattern::Binding(ident)))
}

fn nom_expr<'a, 'b>(input: Tokens<'a, 'b>) -> TokenResult<'a, 'b, Expression> {
    nom_ident(input).map(|(rest, _)| (rest, Expression::Unit))
}

fn nom_single_parameter<'a, 'b>(
    input: Tokens<'a, 'b>,
) -> TokenResult<'a, 'b, (Pattern<'b>, Option<TypePath<'b>>)> {
    let (input, pattern) = nom_pattern(input)?;
    let Ok((input, _)) = nom_token(TokenType::Colon)(input) else {
        return Ok((input, (pattern, None)));
    };
    let (input, path) = nom_type_path(input)?;
    Ok((input, (pattern, Some(path))))
}

fn nom_params<'a, 'b>(
    input: Tokens<'a, 'b>,
) -> TokenResult<'a, 'b, Vec<(Pattern<'b>, Option<TypePath<'b>>)>> {
    delimited(
        nom_token(TokenType::Lparen),
        separated_list1(nom_token(TokenType::Comma), nom_single_parameter),
        nom_token(TokenType::RParen),
    )(input)
}

fn nom_signature<'a, 'b>(input: Tokens<'a, 'b>) -> TokenResult<'a, 'b, FunctionSignature<'b>> {
    let (input, _) = nom_token(TokenType::Colon)(input)?;
    let with_params = |input| {
        let (input, params) = nom_params(input)?;
        let (input, _) = nom_token(TokenType::Equal)(input)?;
        let (input, _) = nom_token(TokenType::RAngleBracket)(input)?;
        let (input, return_type) = nom_type_path(input)?;
        Ok((
            input,
            FunctionSignature {
                params,
                return_type,
            },
        ))
    };
    let without_params = |input| {
        let (input, return_type) = nom_type_path(input)?;
        Ok((
            input,
            FunctionSignature {
                params: Vec::new(),
                return_type,
            },
        ))
    };
    alt((with_params, without_params))(input)
}

fn nom_definition<'a, 'b>(input: Tokens<'a, 'b>) -> TokenResult<'a, 'b, Definition<'b>> {
    let (input, ident) = nom_ident(input)?;
    let (input, sig) = nom_signature(input)?;
    let (input, _) = nom_token(TokenType::Equal)(input)?;
    let (input, body) = delimited(
        nom_token(TokenType::LBrace),
        nom_expr,
        nom_token(TokenType::RBrace),
    )(input)?;
    Ok((input, Definition::FunctionDefinition { ident, sig, body }))
}

/// What both ways of parsing have in common: the tokens left and the value,
/// or that it failed.
fn common<I, T, E1, E2>(ours: Result<(I, T), E1>, theirs: Result<(I, T), E2>) -> (Option<(I, T)>, Option<(I, T)>) {
    (ours.ok(), theirs.ok())
}

const TOKEN_TEXTS: [&str; 24] = [
    "sum : (a: Int, b: Int) => Int = { a }",
    "id : String = { x }",
    "id : (x: Number)  => Number =  { x }",
    "f : (x => {}",
    "f : (x) => T = {}",
    "f : () => T = { x }",
    "f : (x, ) => T = { x }",
    "f : (x: ) => T = { x }",
    "f : (x, y: ) => T = { x }",
    "f : (x y) => T = { x }",
    "f : (x) = T = { x }",
    "f : (x) => = { x }",
    "f : T { x }",
    "f : T = x }",
    "f : T = { x",
    "f : = { x }",
    "f T = { x }",
    ": T = { x }",
    "(x)",
    "(x: Int, y, z: Int)",
    ": (a, b) => C rest of it",
    ")",
    "",
    "x : y",
];

#[test]
fn token_rules_agree_with_nom() {
    for text in TOKEN_TEXTS {
        let tokens = tokenize(text).unwrap();
        for from in 0..tokens.len() {
            let input = &tokens[from..];
            let (ours, theirs) = common(parse_function_definition(input), nom_definition(input));
            assert_eq!(ours, theirs, "definition in {:?} from {}", text, from);
            let (ours, theirs) = common(parse_function_signature(input), nom_signature(input));
            assert_eq!(ours, theirs, "signature in {:?} from {}", text, from);
            let (ours, theirs) = common(parse_function_params(input), nom_params(input));
            assert_eq!(ours, theirs, "parameters in {:?} from {}", text, from);
            let (ours, theirs) = common(parse_single_parameter(input), nom_single_parameter(input));
            assert_eq!(ours, theirs, "parameter in {:?} from {}", text, from);
        }
    }
}

#[test]
fn token_errors_point_where_nom_points_or_further() {
    for text in TOKEN_TEXTS {
        let tokens = tokenize(text).unwrap();
        let input = &tokens[..];
        match (parse_function_definition(input), nom_definition(input)) {
            (Err(ours), Err(nom::Err::Error(theirs))) => {
                assert!(
                    ours.remaining <= theirs.input.len(),
                    "error in {:?}: {:?}",
                    text,
                    ours
                );
            }
            (Ok(_), Ok(_)) => {}
            other => panic!("no agreement on {:?}: {:?}", text, other),
        }
    }
}

fn spaced<'a, O>(
    parser: impl Parser<&'a str, O, ErrorTree<&'a str>>,
) -> impl FnMut(&'a str) -> IResult<&'a str, O, ErrorTree<&'a str>> {
    delimited(
        take_while(|c: char| c == ' '),
        parser,
        take_while(|c: char| c == ' '),
    )
}

fn nom_name_char(c: char) -> bool {
    c.is_alphanumeric() || c == '_' || c == '\''
}

fn nom_text_ident(input: &str) -> IResult<&str, &str, ErrorTree<&str>> {
    alt((alpha1, tag("_")))
        .context("First Character of an an identifier")
        .parse(input)?;
    take_while1(nom_name_char)(input)
}

fn nom_text_expression(input: &str) -> IResult<&str, meri::text::Expression, ErrorTree<&str>> {
    opt(spaced(tag("void")))(input).map(|(rest, _)| (rest, meri::text::Expression::Unit))
}

fn nom_text_body(input: &str) -> IResult<&str, meri::text::Expression, ErrorTree<&str>> {
    delimited(tag("{"), nom_text_expression, tag("}"))(input)
}

fn nom_text_function(input: &str) -> IResult<&str, meri::text::Definition, ErrorTree<&str>> {
    let (input, ident) = nom_text_ident(input)?;
    let (input, _) = spaced(tag("="))(input)?;
    let (input, parameters) = delimited(
        tag("("),
        separated_list0(tag(","), spaced(nom_text_ident)),
        tag(")"),
    )(input)?;
    let (input, _) = spaced(tag("=>"))(input)?;
    let (input, body) = spaced(nom_text_body)(input)?;
    Ok((
        input,
        meri::text::Definition::FunctionDefinition {
            ident,
            parameters,
            body,
        },
    ))
}

const TEXTS: [&str; 30] = [
    "func = () => {}",
    "f = () => {}",
    "f=()=>{}",
    "f   =   (  a  ,  b  )   =>   {   void   }   tail",
    "add' = (a , b,c)=>  { void }  rest",
    "f = (a,b) => {void}",
    "f = ( ) => {}",
    "f = (a,) => {}",
    "f = (,a) => {}",
    "f = (a b) => {}",
    "f = (a, 1) => {}",
    "f = () = {}",
    "f = () => { x }",
    "f = () => { void",
    "f = () =>",
    "f () => {}",
    "1f = () => {}",
    "_f1' = (_) => {}",
    "caf\u{e9} = (\u{e9}) => {}",
    "f = (caf\u{e9}, x') => { void }\u{e9}",
    "f\t= () => {}",
    "wow",
    "_ping'",
    "3ping",
    "",
    " x",
    "{}",
    "{ void }x",
    "  void  }",
    "void",
];

#[test]
fn text_rules_agree_with_nom() {
    for text in TEXTS {
        let (ours, theirs) = common(meri::text::parse_function(text), nom_text_function(text));
        assert_eq!(ours, theirs, "function in {:?}", text);
        let (ours, theirs) = common(meri::text::parse_ident(text), nom_text_ident(text));
        assert_eq!(ours, theirs, "identifier in {:?}", text);
        let (ours, theirs) = common(meri::text::expression(text), nom_text_expression(text));
        assert_eq!(ours, theirs, "expression in {:?}", text);
        let (ours, theirs) = common(meri::text::function_body(text), nom_text_body(text));
        assert_eq!(ours, theirs, "body in {:?}", text);
        let (ours, theirs) = common(
            meri::text::optional_space_delim(meri::text::parse_ident, text),
            spaced(nom_text_ident)(text),
        );
        assert_eq!(ours, theirs, "spaced identifier in {:?}", text);
    }
}
