//! The parser: from tokens to the syntax tree.
//!
//! ```text
//! FunctionDefinition := Ident ':' Signature '=' '{' Expression '}'
//! Signature          := Parameters '=' '>' TypePath   |   TypePath
//! Parameters         := '(' Parameter (',' Parameter)* ')'
//! Parameter          := Pattern (':' TypePath)?
//! Pattern            := Ident
//! TypePath           := Ident
//! Expression         := Ident
//! ```
//!
//! Each rule is a function from the tokens that are left to the tokens that
//! are left afterwards and a piece of the tree, or to an error. What a rule
//! accepts and returns is defined by a specification function of the same
//! name with `spec_` before it, over the models of the tokens; the rule
//! computes exactly that.

use crate::ast::{
    param_view, params_view, Definition, DefinitionView, Expression, FunctionSignature, Ident,
    ParamView, Pattern, PatternView, SignatureView, TypePath,
};
use crate::span::Span;
use crate::token::{token_views, Token, TokenKind, TokenTag, TokenType, TokenView};
use vstd::prelude::*;
use vstd::slice::slice_subrange;

verus! {

/// The rules of the grammar that can fail for want of a token.
#[derive(Clone, Copy, Debug, PartialEq, Eq, Structural)]
pub enum Rule {
    /// No rule: a single token was asked for.
    Terminal,
    FunctionDefinition,
    Signature,
    Parameters,
    Pattern,
    TypePath,
    Expression,
}

/// What stood where a token was expected.
#[derive(Clone, Copy, Debug, PartialEq, Eq, Structural)]
pub enum Offender {
    /// A token of another kind, with its place in the source.
    Token(TokenTag, Span),
    /// Nothing: the tokens were used up.
    Exhausted,
}

/// A syntax error: the rule that failed, the kind of token that it needed,
/// what it found instead, and how many tokens were left at that point, the
/// offending one included.
#[derive(Clone, Copy, Debug, PartialEq, Eq, Structural)]
pub struct ParseError {
    pub rule: Rule,
    pub expected: TokenTag,
    pub found: Offender,
    pub remaining: usize,
}

impl ParseError {
    /// The same error, ascribed to `rule`.
    pub open spec fn spec_in_rule(self, rule: Rule) -> ParseError {
        ParseError { rule, expected: self.expected, found: self.found, remaining: self.remaining }
    }

    /// Of two errors of alternatives tried from one place, the one that got
    /// further into the tokens; where both got equally far, the second.
    pub open spec fn spec_further(self, second: ParseError) -> ParseError {
        if self.remaining < second.remaining {
            self
        } else {
            second
        }
    }

    /// The same error, ascribed to `rule`.
    pub fn in_rule(self, rule: Rule) -> (error: ParseError)
        ensures
            error == self.spec_in_rule(rule),
    {
        ParseError { rule, expected: self.expected, found: self.found, remaining: self.remaining }
    }

    /// Of two errors of alternatives tried from one place, the one that got
    /// further into the tokens; where both got equally far, the second.
    pub fn further(self, second: ParseError) -> (error: ParseError)
        ensures
            error == self.spec_further(second),
    {
        if self.remaining < second.remaining {
            self
        } else {
            second
        }
    }
}

/// The error of a single token of kind `expected` that is asked for at the
/// head of `toks` and is not there.
pub open spec fn mismatch(expected: TokenTag, toks: Seq<TokenView>) -> ParseError {
    ParseError {
        rule: Rule::Terminal,
        expected,
        found: if toks.len() == 0 {
            Offender::Exhausted
        } else {
            Offender::Token(toks[0].typ.tag(), toks[0].span)
        },
        remaining: toks.len() as usize,
    }
}

/// A token of kind `kind` at the head of `toks`: the token, with one token
/// used.
pub open spec fn spec_token_type(kind: TokenKind, toks: Seq<TokenView>) -> Result<
    (nat, TokenView),
    ParseError,
> {
    if toks.len() > 0 && toks[0].typ == kind {
        Ok((1, toks[0]))
    } else {
        Err(mismatch(kind.tag(), toks))
    }
}

/// An identifier at the head of `toks`: its name, with one token used.
pub open spec fn spec_ident(toks: Seq<TokenView>) -> Result<(nat, Seq<char>), ParseError> {
    if toks.len() > 0 && toks[0].typ is Ident {
        Ok((1, toks[0].typ->Ident_0))
    } else {
        Err(mismatch(TokenTag::Ident, toks))
    }
}

/// What is left of `toks` behind its first `used` tokens.
pub open spec fn after(toks: Seq<TokenView>, used: nat) -> Seq<TokenView> {
    toks.skip(used as int)
}

/// `Pattern := Ident`
pub open spec fn spec_pattern(toks: Seq<TokenView>) -> Result<(nat, PatternView), ParseError> {
    match spec_ident(toks) {
        Ok((used, name)) => Ok((used, PatternView::Binding(name))),
        Err(error) => Err(error.spec_in_rule(Rule::Pattern)),
    }
}

/// `TypePath := Ident`
pub open spec fn spec_type_path(toks: Seq<TokenView>) -> Result<(nat, Seq<char>), ParseError> {
    match spec_ident(toks) {
        Ok((used, name)) => Ok((used, name)),
        Err(error) => Err(error.spec_in_rule(Rule::TypePath)),
    }
}

/// `Expression := Ident`. The identifier only holds the place of the
/// expressions to come: the expression that results is the unit.
pub open spec fn spec_expr(toks: Seq<TokenView>) -> Result<(nat, Expression), ParseError> {
    match spec_ident(toks) {
        Ok((used, _)) => Ok((used, Expression::Unit)),
        Err(error) => Err(error.spec_in_rule(Rule::Expression)),
    }
}

/// `Parameter := Pattern (':' TypePath)?`. After a colon the type must
/// follow.
pub open spec fn spec_single_parameter(toks: Seq<TokenView>) -> Result<
    (nat, ParamView),
    ParseError,
> {
    match spec_pattern(toks) {
        Err(error) => Err(error),
        Ok((used, pattern)) => {
            if spec_token_type(TokenKind::Colon, after(toks, used)) is Ok {
                match spec_type_path(after(toks, used + 1)) {
                    Ok((more, path)) => Ok((used + 1 + more, (pattern, Some(path)))),
                    Err(error) => Err(error),
                }
            } else {
                Ok((used, (pattern, None)))
            }
        },
    }
}

/// The number of tokens of `toks` from index `from` on.
pub open spec fn tokens_left(toks: Seq<TokenView>, from: nat) -> nat {
    if from <= toks.len() {
        (toks.len() - from) as nat
    } else {
        0
    }
}

/// `(',' Parameter)*`, from index `used` of `toks` on, after the parameters
/// `found`: as many further parameters as there are, each behind a comma. A
/// comma that no parameter follows is left where it is.
pub open spec fn spec_more_parameters(toks: Seq<TokenView>, used: nat, found: Seq<ParamView>) -> (
    nat,
    Seq<ParamView>,
)
    decreases tokens_left(toks, used),
{
    if used < toks.len() && toks[used as int].typ == TokenKind::Comma {
        match spec_single_parameter(after(toks, used + 1)) {
            Ok((more, param)) => spec_more_parameters(toks, used + 1 + more, found.push(param)),
            Err(_) => (used, found),
        }
    } else {
        (used, found)
    }
}

/// `Parameter (',' Parameter)*`
pub open spec fn spec_parameter_list(toks: Seq<TokenView>) -> Result<
    (nat, Seq<ParamView>),
    ParseError,
> {
    match spec_single_parameter(toks) {
        Err(error) => Err(error),
        Ok((used, param)) => Ok(spec_more_parameters(toks, used, seq![param])),
    }
}

/// `Parameters := '(' Parameter (',' Parameter)* ')'`
pub open spec fn spec_function_params(toks: Seq<TokenView>) -> Result<
    (nat, Seq<ParamView>),
    ParseError,
> {
    match spec_token_type(TokenKind::Lparen, toks) {
        Err(error) => Err(error.spec_in_rule(Rule::Parameters)),
        Ok(_) => match spec_parameter_list(after(toks, 1)) {
            Err(error) => Err(error),
            Ok((used, params)) => match spec_token_type(TokenKind::RParen, after(toks, 1 + used)) {
                Err(error) => Err(error.spec_in_rule(Rule::Parameters)),
                Ok(_) => Ok((1 + used + 1, params)),
            },
        },
    }
}

/// The first way to write a signature: `Parameters '=' '>' TypePath`.
pub open spec fn spec_signature_with_params(toks: Seq<TokenView>) -> Result<
    (nat, SignatureView),
    ParseError,
> {
    match spec_function_params(toks) {
        Err(error) => Err(error),
        Ok((used, params)) => match spec_token_type(TokenKind::Equal, after(toks, used)) {
            Err(error) => Err(error.spec_in_rule(Rule::Signature)),
            Ok(_) => match spec_token_type(TokenKind::RAngleBracket, after(toks, used + 1)) {
                Err(error) => Err(error.spec_in_rule(Rule::Signature)),
                Ok(_) => match spec_type_path(after(toks, used + 2)) {
                    Err(error) => Err(error),
                    Ok((more, return_type)) => Ok(
                        (used + 2 + more, SignatureView { params, return_type }),
                    ),
                },
            },
        },
    }
}

/// The second way to write a signature, that of a constant: `TypePath`.
pub open spec fn spec_signature_without_params(toks: Seq<TokenView>) -> Result<
    (nat, SignatureView),
    ParseError,
> {
    match spec_type_path(toks) {
        Err(error) => Err(error),
        Ok((used, return_type)) => Ok(
            (used, SignatureView { params: Seq::empty(), return_type }),
        ),
    }
}

/// `':' Signature`, with `Signature := Parameters '=' '>' TypePath | TypePath`.
/// The second way is tried where the first fails, from the same place. Where
/// both fail, the error is that of the way that got further.
pub open spec fn spec_function_signature(toks: Seq<TokenView>) -> Result<
    (nat, SignatureView),
    ParseError,
> {
    match spec_token_type(TokenKind::Colon, toks) {
        Err(error) => Err(error.spec_in_rule(Rule::Signature)),
        Ok(_) => match spec_signature_with_params(after(toks, 1)) {
            Ok((used, sig)) => Ok((1 + used, sig)),
            Err(first) => match spec_signature_without_params(after(toks, 1)) {
                Ok((used, sig)) => Ok((1 + used, sig)),
                Err(second) => Err(first.spec_further(second)),
            },
        },
    }
}

/// `'{' Expression '}'`
pub open spec fn spec_function_body(toks: Seq<TokenView>) -> Result<
    (nat, Expression),
    ParseError,
> {
    match spec_token_type(TokenKind::LBrace, toks) {
        Err(error) => Err(error.spec_in_rule(Rule::FunctionDefinition)),
        Ok(_) => match spec_expr(after(toks, 1)) {
            Err(error) => Err(error),
            Ok((used, body)) => match spec_token_type(TokenKind::RBrace, after(toks, 1 + used)) {
                Err(error) => Err(error.spec_in_rule(Rule::FunctionDefinition)),
                Ok(_) => Ok((1 + used + 1, body)),
            },
        },
    }
}

/// `FunctionDefinition := Ident ':' Signature '=' '{' Expression '}'`
pub open spec fn spec_function_definition(toks: Seq<TokenView>) -> Result<
    (nat, DefinitionView),
    ParseError,
> {
    match spec_ident(toks) {
        Err(error) => Err(error.spec_in_rule(Rule::FunctionDefinition)),
        Ok((_, ident)) => match spec_function_signature(after(toks, 1)) {
            Err(error) => Err(error),
            Ok((used, sig)) => match spec_token_type(TokenKind::Equal, after(toks, 1 + used)) {
                Err(error) => Err(error.spec_in_rule(Rule::FunctionDefinition)),
                Ok(_) => match spec_function_body(after(toks, 1 + used + 1)) {
                    Err(error) => Err(error),
                    Ok((more, body)) => Ok(
                        (
                            1 + used + 1 + more,
                            DefinitionView::FunctionDefinition { ident, sig, body },
                        ),
                    ),
                },
            },
        },
    }
}

/// `outcome` accepts: it uses `used` tokens and gives `value`.
pub open spec fn accepts<T>(outcome: Result<(nat, T), ParseError>, used: nat, value: T) -> bool {
    outcome == Ok::<(nat, T), ParseError>((used, value))
}

/// `outcome` refuses, with `error`.
pub open spec fn refuses<T>(outcome: Result<(nat, T), ParseError>, error: ParseError) -> bool {
    outcome == Err::<(nat, T), ParseError>(error)
}

/// `rest` is what is left of `input` once `used` tokens are taken from its
/// head.
pub open spec fn advanced<'b>(input: Seq<Token<'b>>, rest: Seq<Token<'b>>, used: nat) -> bool {
    used <= input.len() && rest == input.skip(used as int)
}

/// Taking `first` tokens and then `second` more is taking both at once.
pub proof fn lemma_advanced_twice<'b>(
    input: Seq<Token<'b>>,
    middle: Seq<Token<'b>>,
    rest: Seq<Token<'b>>,
    first: nat,
    second: nat,
)
    requires
        advanced(input, middle, first),
        advanced(middle, rest, second),
    ensures
        advanced(input, rest, first + second),
{
    assert(middle.skip(second as int) =~= input.skip((first + second) as int));
}

/// The models of the tokens behind the first `used` are the models behind
/// the first `used`.
pub proof fn lemma_views_skip<'b>(input: Seq<Token<'b>>, used: nat)
    requires
        used <= input.len(),
    ensures
        token_views(input.skip(used as int)) == after(token_views(input), used),
{
    assert(token_views(input.skip(used as int)) =~= token_views(input).skip(used as int));
}

/// The error of a single token of kind `expected` that is asked for at the
/// head of `input` and is not there.
fn mismatch_at<'b>(expected: TokenTag, input: &[Token<'b>]) -> (error: ParseError)
    ensures
        error == mismatch(expected, token_views(input@)),
{
    if input.len() == 0 {
        ParseError { rule: Rule::Terminal, expected, found: Offender::Exhausted, remaining: 0 }
    } else {
        let head = input[0];
        assert(token_views(input@)[0] == head@);
        ParseError {
            rule: Rule::Terminal,
            expected,
            found: Offender::Token(head.typ.tag(), head.span),
            remaining: input.len(),
        }
    }
}

/// Takes a token of the kind `tok_typ` from the head of `input`.
pub fn token_type<'a, 'b>(tok_typ: TokenType<'_>, input: &'a [Token<'b>]) -> (result: Result<
    (&'a [Token<'b>], Token<'b>),
    ParseError,
>)
    ensures
        match result {
            Ok((rest, token)) => accepts(
                spec_token_type(tok_typ@, token_views(input@)),
                1,
                token@,
            ) && advanced(input@, rest@, 1) && token == input@[0],
            Err(error) => refuses(spec_token_type(tok_typ@, token_views(input@)), error),
        },
{
    if input.len() > 0 {
        let head = input[0];
        assert(token_views(input@)[0] == head@);
        if head.typ.same(&tok_typ) {
            return Ok((slice_subrange(input, 1, input.len()), head));
        }
    }
    Err(mismatch_at(tok_typ.tag(), input))
}

/// Takes an identifier from the head of `input`.
pub fn ident<'a, 'b>(input: &'a [Token<'b>]) -> (result: Result<
    (&'a [Token<'b>], Ident<'b>),
    ParseError,
>)
    ensures
        match result {
            Ok((rest, name)) => accepts(spec_ident(token_views(input@)), 1, name@) && advanced(
                input@,
                rest@,
                1,
            ),
            Err(error) => refuses(spec_ident(token_views(input@)), error),
        },
{
    if input.len() > 0 {
        let head = input[0];
        assert(token_views(input@)[0] == head@);
        match head.typ {
            TokenType::Ident(name) => {
                return Ok((slice_subrange(input, 1, input.len()), Ident(name)));
            },
            _ => {},
        }
    }
    Err(mismatch_at(TokenTag::Ident, input))
}

/// Reads a pattern: for now, the name that a value is bound to.
pub fn parse_pattern<'a, 'b>(input: &'a [Token<'b>]) -> (result: Result<
    (&'a [Token<'b>], Pattern<'b>),
    ParseError,
>)
    ensures
        match result {
            Ok((rest, pattern)) => accepts(spec_pattern(token_views(input@)), 1, pattern@)
                && advanced(input@, rest@, 1),
            Err(error) => refuses(spec_pattern(token_views(input@)), error),
        },
{
    match ident(input) {
        Ok((rest, name)) => Ok((rest, Pattern::Binding(name))),
        Err(error) => Err(error.in_rule(Rule::Pattern)),
    }
}

/// Reads the name of a type.
pub fn parse_type_path<'a, 'b>(input: &'a [Token<'b>]) -> (result: Result<
    (&'a [Token<'b>], TypePath<'b>),
    ParseError,
>)
    ensures
        match result {
            Ok((rest, path)) => accepts(spec_type_path(token_views(input@)), 1, path@)
                && advanced(input@, rest@, 1),
            Err(error) => refuses(spec_type_path(token_views(input@)), error),
        },
{
    match ident(input) {
        Ok((rest, name)) => Ok((rest, TypePath { ident: name })),
        Err(error) => Err(error.in_rule(Rule::TypePath)),
    }
}

/// Reads an expression: for now an identifier, which stands for the unit.
pub fn parse_expr<'a, 'b>(input: &'a [Token<'b>]) -> (result: Result<
    (&'a [Token<'b>], Expression),
    ParseError,
>)
    ensures
        match result {
            Ok((rest, body)) => accepts(spec_expr(token_views(input@)), 1, body) && advanced(
                input@,
                rest@,
                1,
            ),
            Err(error) => refuses(spec_expr(token_views(input@)), error),
        },
{
    match ident(input) {
        Ok((rest, _)) => Ok((rest, Expression::Unit)),
        Err(error) => Err(error.in_rule(Rule::Expression)),
    }
}

/// Reads one parameter: a pattern, and its type where a colon follows.
pub fn parse_single_parameter<'a, 'b>(input: &'a [Token<'b>]) -> (result: Result<
    (&'a [Token<'b>], (Pattern<'b>, Option<TypePath<'b>>)),
    ParseError,
>)
    ensures
        match result {
            Ok((rest, param)) => match spec_single_parameter(token_views(input@)) {
                Ok((used, model)) => advanced(input@, rest@, used) && param_view(param) == model
                    && used >= 1,
                Err(_) => false,
            },
            Err(error) => refuses(spec_single_parameter(token_views(input@)), error),
        },
{
    let (rest, pattern) = match parse_pattern(input) {
        Ok(found) => found,
        Err(error) => {
            return Err(error);
        },
    };
    proof {
        lemma_views_skip(input@, 1);
    }
    let after_colon = match token_type(TokenType::Colon, rest) {
        Ok((after_colon, _)) => after_colon,
        Err(_) => {
            return Ok((rest, (pattern, None)));
        },
    };
    proof {
        lemma_advanced_twice(input@, rest@, after_colon@, 1, 1);
        lemma_views_skip(input@, 2);
    }
    match parse_type_path(after_colon) {
        Ok((rest, path)) => {
            proof {
                lemma_advanced_twice(input@, after_colon@, rest@, 2, 1);
            }
            Ok((rest, (pattern, Some(path))))
        },
        Err(error) => Err(error),
    }
}

/// Reads parameters separated by commas, one at least, for as long as a
/// comma and a parameter follow.
pub fn parse_parameter_list<'a, 'b>(input: &'a [Token<'b>]) -> (result: Result<
    (&'a [Token<'b>], Vec<(Pattern<'b>, Option<TypePath<'b>>)>),
    ParseError,
>)
    ensures
        match result {
            Ok((rest, params)) => spec_parameter_list(token_views(input@)) matches Ok(
                (used, models),
            ) && advanced(input@, rest@, used) && params_view(params@) == models,
            Err(error) => refuses(spec_parameter_list(token_views(input@)), error),
        },
{
    let ghost toks = token_views(input@);
    let (first_rest, first) = match parse_single_parameter(input) {
        Ok(found) => found,
        Err(error) => {
            return Err(error);
        },
    };
    let ghost mut used: nat = spec_single_parameter(toks)->Ok_0.0;
    let ghost goal = spec_more_parameters(toks, used, seq![param_view(first)]);
    let mut rest = first_rest;
    let mut params: Vec<(Pattern<'b>, Option<TypePath<'b>>)> = Vec::new();
    params.push(first);
    assert(params_view(params@) =~= seq![param_view(first)]);
    loop
        invariant
            toks == token_views(input@),
            advanced(input@, rest@, used),
            spec_more_parameters(toks, used, params_view(params@)) == goal,
        ensures
            advanced(input@, rest@, used),
            goal == (used, params_view(params@)),
        decreases rest@.len(),
    {
        proof {
            lemma_views_skip(input@, used);
        }
        let after_comma = match token_type(TokenType::Comma, rest) {
            Ok((after_comma, _)) => after_comma,
            Err(_) => {
                break ;
            },
        };
        proof {
            lemma_advanced_twice(input@, rest@, after_comma@, used, 1);
            lemma_views_skip(input@, used + 1);
        }
        match parse_single_parameter(after_comma) {
            Ok((next_rest, param)) => {
                let ghost more: nat = spec_single_parameter(after(toks, used + 1))->Ok_0.0;
                let ghost before = params_view(params@);
                params.push(param);
                proof {
                    assert(params_view(params@) =~= before.push(param_view(param)));
                    lemma_advanced_twice(input@, after_comma@, next_rest@, used + 1, more);
                    used = used + 1 + more;
                }
                rest = next_rest;
            },
            Err(_) => {
                break ;
            },
        }
    }
    Ok((rest, params))
}

/// Reads the parameters of a function, in their parentheses.
pub fn parse_function_params<'a, 'b>(input: &'a [Token<'b>]) -> (result: Result<
    (&'a [Token<'b>], Vec<(Pattern<'b>, Option<TypePath<'b>>)>),
    ParseError,
>)
    ensures
        match result {
            Ok((rest, params)) => spec_function_params(token_views(input@)) matches Ok(
                (used, models),
            ) && advanced(input@, rest@, used) && params_view(params@) == models,
            Err(error) => refuses(spec_function_params(token_views(input@)), error),
        },
{
    let opened = match token_type(TokenType::Lparen, input) {
        Ok((opened, _)) => opened,
        Err(error) => {
            return Err(error.in_rule(Rule::Parameters));
        },
    };
    proof {
        lemma_views_skip(input@, 1);
    }
    let (listed, params) = match parse_parameter_list(opened) {
        Ok(found) => found,
        Err(error) => {
            return Err(error);
        },
    };
    let ghost used: nat = spec_parameter_list(after(token_views(input@), 1))->Ok_0.0;
    proof {
        lemma_advanced_twice(input@, opened@, listed@, 1, used);
        lemma_views_skip(input@, 1 + used);
    }
    match token_type(TokenType::RParen, listed) {
        Ok((rest, _)) => {
            proof {
                lemma_advanced_twice(input@, listed@, rest@, 1 + used, 1);
            }
            Ok((rest, params))
        },
        Err(error) => Err(error.in_rule(Rule::Parameters)),
    }
}

/// Reads a signature with parameters: the parameters, `=>`, and the type of
/// the result.
pub fn parse_signature_with_params<'a, 'b>(input: &'a [Token<'b>]) -> (result: Result<
    (&'a [Token<'b>], FunctionSignature<'b>),
    ParseError,
>)
    ensures
        match result {
            Ok((rest, sig)) => spec_signature_with_params(token_views(input@)) matches Ok(
                (used, model),
            ) && advanced(input@, rest@, used) && sig@ == model,
            Err(error) => refuses(spec_signature_with_params(token_views(input@)), error),
        },
{
    let (listed, params) = match parse_function_params(input) {
        Ok(found) => found,
        Err(error) => {
            return Err(error);
        },
    };
    let ghost used: nat = spec_function_params(token_views(input@))->Ok_0.0;
    proof {
        lemma_views_skip(input@, used);
    }
    let after_equal = match token_type(TokenType::Equal, listed) {
        Ok((after_equal, _)) => after_equal,
        Err(error) => {
            return Err(error.in_rule(Rule::Signature));
        },
    };
    proof {
        lemma_advanced_twice(input@, listed@, after_equal@, used, 1);
        lemma_views_skip(input@, used + 1);
    }
    let after_arrow = match token_type(TokenType::RAngleBracket, after_equal) {
        Ok((after_arrow, _)) => after_arrow,
        Err(error) => {
            return Err(error.in_rule(Rule::Signature));
        },
    };
    proof {
        lemma_advanced_twice(input@, after_equal@, after_arrow@, used + 1, 1);
        lemma_views_skip(input@, used + 2);
    }
    match parse_type_path(after_arrow) {
        Ok((rest, return_type)) => {
            proof {
                lemma_advanced_twice(input@, after_arrow@, rest@, used + 2, 1);
            }
            Ok((rest, FunctionSignature { params, return_type }))
        },
        Err(error) => Err(error),
    }
}

/// Reads the signature of a constant: the type of its value.
pub fn parse_signature_without_params<'a, 'b>(input: &'a [Token<'b>]) -> (result: Result<
    (&'a [Token<'b>], FunctionSignature<'b>),
    ParseError,
>)
    ensures
        match result {
            Ok((rest, sig)) => spec_signature_without_params(token_views(input@)) matches Ok(
                (used, model),
            ) && advanced(input@, rest@, used) && sig@ == model,
            Err(error) => refuses(spec_signature_without_params(token_views(input@)), error),
        },
{
    match parse_type_path(input) {
        Ok((rest, return_type)) => {
            let params: Vec<(Pattern<'b>, Option<TypePath<'b>>)> = Vec::new();
            assert(params_view(params@) =~= Seq::empty());
            Ok((rest, FunctionSignature { params, return_type }))
        },
        Err(error) => Err(error),
    }
}

/// Reads the colon and the signature of a definition. The signature with
/// parameters is tried first, and that of a constant from the same place
/// where the first way fails.
pub fn parse_function_signature<'a, 'b>(input: &'a [Token<'b>]) -> (result: Result<
    (&'a [Token<'b>], FunctionSignature<'b>),
    ParseError,
>)
    ensures
        match result {
            Ok((rest, sig)) => spec_function_signature(token_views(input@)) matches Ok(
                (used, model),
            ) && advanced(input@, rest@, used) && sig@ == model,
            Err(error) => refuses(spec_function_signature(token_views(input@)), error),
        },
{
    let after_colon = match token_type(TokenType::Colon, input) {
        Ok((after_colon, _)) => after_colon,
        Err(error) => {
            return Err(error.in_rule(Rule::Signature));
        },
    };
    proof {
        lemma_views_skip(input@, 1);
    }
    let first = match parse_signature_with_params(after_colon) {
        Ok((rest, sig)) => {
            proof {
                let used: nat = spec_signature_with_params(after(token_views(input@), 1))->Ok_0.0;
                lemma_advanced_twice(input@, after_colon@, rest@, 1, used);
            }
            return Ok((rest, sig));
        },
        Err(first) => first,
    };
    match parse_signature_without_params(after_colon) {
        Ok((rest, sig)) => {
            proof {
                let used: nat = spec_signature_without_params(
                    after(token_views(input@), 1),
                )->Ok_0.0;
                lemma_advanced_twice(input@, after_colon@, rest@, 1, used);
            }
            Ok((rest, sig))
        },
        Err(second) => Err(first.further(second)),
    }
}

/// Reads the body of a function: an expression in braces.
pub fn parse_function_body<'a, 'b>(input: &'a [Token<'b>]) -> (result: Result<
    (&'a [Token<'b>], Expression),
    ParseError,
>)
    ensures
        match result {
            Ok((rest, body)) => spec_function_body(token_views(input@)) matches Ok((used, model))
                && advanced(input@, rest@, used) && body == model,
            Err(error) => refuses(spec_function_body(token_views(input@)), error),
        },
{
    let opened = match token_type(TokenType::LBrace, input) {
        Ok((opened, _)) => opened,
        Err(error) => {
            return Err(error.in_rule(Rule::FunctionDefinition));
        },
    };
    proof {
        lemma_views_skip(input@, 1);
    }
    let (inner, body) = match parse_expr(opened) {
        Ok(found) => found,
        Err(error) => {
            return Err(error);
        },
    };
    proof {
        lemma_advanced_twice(input@, opened@, inner@, 1, 1);
        lemma_views_skip(input@, 2);
    }
    match token_type(TokenType::RBrace, inner) {
        Ok((rest, _)) => {
            proof {
                lemma_advanced_twice(input@, inner@, rest@, 2, 1);
            }
            Ok((rest, body))
        },
        Err(error) => Err(error.in_rule(Rule::FunctionDefinition)),
    }
}

/// Reads the definition of a function: its name, its signature, an equal
/// sign and its body.
pub fn parse_function_definition<'a, 'b>(input: &'a [Token<'b>]) -> (result: Result<
    (&'a [Token<'b>], Definition<'b>),
    ParseError,
>)
    ensures
        match result {
            Ok((rest, definition)) => spec_function_definition(token_views(input@)) matches Ok(
                (used, model),
            ) && advanced(input@, rest@, used) && definition@ == model,
            Err(error) => refuses(spec_function_definition(token_views(input@)), error),
        },
{
    let (named, name) = match ident(input) {
        Ok(found) => found,
        Err(error) => {
            return Err(error.in_rule(Rule::FunctionDefinition));
        },
    };
    proof {
        lemma_views_skip(input@, 1);
    }
    let (signed, sig) = match parse_function_signature(named) {
        Ok(found) => found,
        Err(error) => {
            return Err(error);
        },
    };
    let ghost used: nat = spec_function_signature(after(token_views(input@), 1))->Ok_0.0;
    proof {
        lemma_advanced_twice(input@, named@, signed@, 1, used);
        lemma_views_skip(input@, 1 + used);
    }
    let after_equal = match token_type(TokenType::Equal, signed) {
        Ok((after_equal, _)) => after_equal,
        Err(error) => {
            return Err(error.in_rule(Rule::FunctionDefinition));
        },
    };
    proof {
        lemma_advanced_twice(input@, signed@, after_equal@, 1 + used, 1);
        lemma_views_skip(input@, 1 + used + 1);
    }
    match parse_function_body(after_equal) {
        Ok((rest, body)) => {
            proof {
                let more: nat = spec_function_body(
                    after(token_views(input@), 1 + used + 1),
                )->Ok_0.0;
                lemma_advanced_twice(input@, after_equal@, rest@, 1 + used + 1, more);
            }
            Ok((rest, Definition::FunctionDefinition { ident: name, sig, body }))
        },
        Err(error) => Err(error),
    }
}

} // verus!
