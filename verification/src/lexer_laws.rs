//! Laws of the lexer: what holds of the tokens of every text.

use crate::chars::{
    char_at, is_ascii_digit, is_position, lemma_ascii_at, lemma_char_step, width_at,
};
use crate::lexer::{
    digit_follows, lemma_ascii_char, lemma_run_end_position, lemma_scan_progress, lex, lex_from,
    number_at, peek_at, run_end, scan_token, scanned, span_of, text_of, token_at, CharClass,
    LexErrorKind,
};
use crate::number::{all_digits, integer_value, is_digit_byte, is_integer_text, magnitude_digits};
use crate::token::{keyword_kind, TokenKind, TokenView};
use vstd::prelude::*;
use vstd::utf8::*;

verus! {

/// Every character of `src` from `from` up to `to` belongs to `class`.
pub open spec fn all_in_class(src: Seq<u8>, from: int, to: int, class: CharClass) -> bool
    decreases to - from,
{
    if from >= to {
        from == to
    } else {
        class.holds(char_at(src, from)) && from + width_at(src, from) <= to && all_in_class(
            src,
            from + width_at(src, from),
            to,
            class,
        )
    }
}

/// The tokens stand in `src` one after another from offset `from` on: each
/// starts at or behind the place where the one before it ended, ends within
/// the text, and is parted from the one before it by whitespace alone; where
/// the last of them ends, the text ends.
pub open spec fn well_placed(src: Seq<u8>, tokens: Seq<TokenView>, from: int) -> bool
    decreases tokens.len(),
{
    if tokens.len() == 0 {
        from == src.len()
    } else {
        let span = tokens[0].span;
        &&& from <= span.start <= span.end <= src.len()
        &&& all_in_class(src, from, span.start as int, CharClass::Space)
        &&& well_placed(src, tokens.skip(1), span.end as int)
    }
}

/// The text put together again from the spans of the tokens, from offset
/// `from` on: for each token in turn the whitespace that stands before it,
/// then the bytes that its span covers.
pub open spec fn rebuilt(src: Seq<u8>, tokens: Seq<TokenView>, from: int) -> Seq<u8>
    decreases tokens.len(),
{
    if tokens.len() == 0 {
        Seq::empty()
    } else {
        let span = tokens[0].span;
        src.subrange(from, span.start as int) + src.subrange(span.start as int, span.end as int)
            + rebuilt(src, tokens.skip(1), span.end as int)
    }
}

/// A run consists of characters of its class alone.
pub proof fn lemma_run_is_in_class(src: Seq<u8>, from: int, class: CharClass)
    requires
        valid_utf8(src),
        is_position(src, from),
    ensures
        all_in_class(src, from, run_end(src, from, class), class),
    decreases src.len() - from,
{
    if from < src.len() && class.holds(char_at(src, from)) {
        lemma_char_step(src, from);
        lemma_run_end_position(src, from + width_at(src, from), class);
        lemma_run_is_in_class(src, from + width_at(src, from), class);
    }
}

/// A run is as long as it can be: where it ends, the text ends or a
/// character stands that is not of its class.
pub proof fn lemma_run_is_longest(src: Seq<u8>, from: int, class: CharClass)
    requires
        valid_utf8(src),
        is_position(src, from),
    ensures
        match peek_at(src, run_end(src, from, class)) {
            Some(c) => !class.holds(c),
            None => run_end(src, from, class) == src.len(),
        },
    decreases src.len() - from,
{
    if from < src.len() && class.holds(char_at(src, from)) {
        lemma_char_step(src, from);
        lemma_run_is_longest(src, from + width_at(src, from), class);
    }
}

/// The token that a scan yields starts where the whitespace ends and ends
/// where the lexer then stands.
pub proof fn lemma_scan_span(src: Seq<u8>, pos: int)
    requires
        valid_utf8(src),
        is_position(src, pos),
        src.len() <= usize::MAX,
    ensures
        match scan_token(src, pos).item {
            Ok(token) => {
                &&& token.span.start == run_end(src, pos, CharClass::Space)
                &&& token.span.end == scan_token(src, pos).next
                &&& pos <= token.span.start <= token.span.end <= src.len()
            },
            Err(error) => {
                &&& error.span.end == scan_token(src, pos).next
                &&& pos <= error.span.start < error.span.end <= src.len()
            },
        },
{
    reveal(token_at);
    lemma_scan_progress(src, pos);
    lemma_run_end_position(src, pos, CharClass::Space);
    let start = run_end(src, pos, CharClass::Space);
    if start < src.len() {
        lemma_char_step(src, start);
        let after = start + width_at(src, start);
        lemma_run_end_position(src, after, CharClass::WithinLine);
        lemma_run_end_position(src, after, CharClass::Identifier);
        lemma_run_end_position(src, after, CharClass::Digit);
        let whole_end = run_end(src, after, CharClass::Digit);
        if peek_at(src, whole_end) == Some('.') {
            lemma_ascii_char(src, whole_end);
            lemma_run_end_position(src, whole_end + 1, CharClass::Digit);
        }
    }
}

/// The tokens read from a position on stand one after another up to the end
/// of the text, and their spans with the whitespace between them give back
/// the text from that position on.
pub proof fn lemma_lex_from_rebuilds(src: Seq<u8>, pos: int)
    requires
        valid_utf8(src),
        is_position(src, pos),
        src.len() <= usize::MAX,
        lex_from(src, pos) is Ok,
    ensures
        well_placed(src, lex_from(src, pos)->Ok_0, pos),
        rebuilt(src, lex_from(src, pos)->Ok_0, pos) == src.subrange(pos, src.len() as int),
    decreases src.len() - pos,
{
    let scan = scan_token(src, pos);
    let tokens = lex_from(src, pos)->Ok_0;
    let token = scan.item->Ok_0;
    let start = run_end(src, pos, CharClass::Space);
    lemma_scan_progress(src, pos);
    lemma_scan_span(src, pos);
    lemma_run_is_in_class(src, pos, CharClass::Space);
    if token.typ is EOF {
        assert(tokens == seq![token]);
        assert(tokens.skip(1) =~= Seq::empty());
        assert(well_placed(src, tokens.skip(1), src.len() as int));
        assert(rebuilt(src, tokens.skip(1), src.len() as int) =~= Seq::empty());
        assert(rebuilt(src, tokens, pos) =~= src.subrange(pos, src.len() as int));
    } else {
        let rest = lex_from(src, scan.next)->Ok_0;
        assert(tokens == seq![token] + rest);
        assert(tokens.skip(1) =~= rest);
        lemma_lex_from_rebuilds(src, scan.next);
        assert(rebuilt(src, tokens, pos) =~= src.subrange(pos, src.len() as int));
    }
}

/// Tokenizing loses nothing. Where a text can be tokenized, its tokens stand
/// in it one after another from its start to its end, nothing but whitespace
/// stands between them, and putting the bytes of their spans together again,
/// with that whitespace, gives back the text exactly.
pub proof fn lemma_tokens_rebuild_source(src: Seq<u8>)
    requires
        valid_utf8(src),
        src.len() <= usize::MAX,
        lex(src) is Ok,
    ensures
        well_placed(src, lex(src)->Ok_0, 0),
        rebuilt(src, lex(src)->Ok_0, 0) == src,
{
    is_char_boundary_start_end_of_seq(src);
    lemma_lex_from_rebuilds(src, 0);
    assert(src.subrange(0, src.len() as int) =~= src);
}

/// The tokens of a text end with the end-of-input token, which stands at the
/// end of the text, and hold no other.
pub proof fn lemma_tokens_end_with_eof(src: Seq<u8>, pos: int)
    requires
        valid_utf8(src),
        is_position(src, pos),
        src.len() <= usize::MAX,
        lex_from(src, pos) is Ok,
    ensures
        ({
            let tokens = lex_from(src, pos)->Ok_0;
            &&& tokens.len() >= 1
            &&& tokens.last().typ is EOF
            &&& tokens.last().span == span_of(src.len() as int, src.len() as int)
            &&& forall|i: int| 0 <= i < tokens.len() - 1 ==> !(#[trigger] tokens[i].typ is EOF)
        }),
    decreases src.len() - pos,
{
    let scan = scan_token(src, pos);
    let token = scan.item->Ok_0;
    lemma_scan_progress(src, pos);
    lemma_scan_span(src, pos);
    if !(token.typ is EOF) {
        lemma_tokens_end_with_eof(src, scan.next);
        let rest = lex_from(src, scan.next)->Ok_0;
        let tokens = lex_from(src, pos)->Ok_0;
        assert(tokens == seq![token] + rest);
        assert forall|i: int| 0 <= i < tokens.len() - 1 implies !(#[trigger] tokens[i].typ
            is EOF) by {
            if i > 0 {
                assert(tokens[i] == rest[i - 1]);
            }
        }
        assert(tokens.last() == rest.last());
    }
}

/// No position lies within a character: the position next behind a position
/// is the end of the character that starts there.
pub proof fn lemma_no_position_within_char(src: Seq<u8>, from: int, at: int)
    requires
        valid_utf8(src),
        is_position(src, from),
        is_position(src, at),
        from < at,
    ensures
        from + width_at(src, from) <= at,
{
    lemma_char_step(src, from);
    let rest = src.subrange(from, src.len() as int);
    let width = width_at(src, from);
    if at < from + width {
        let k = at - from;
        assert(rest[k] == src[at]);
        assert(is_continuation_byte(rest[k]));
        is_char_boundary_iff_not_is_continuation_byte(src, at);
    }
}

/// A run does not pass a character that is not of its class.
pub proof fn lemma_run_stops_at(src: Seq<u8>, from: int, at: int, class: CharClass)
    requires
        valid_utf8(src),
        is_position(src, from),
        is_position(src, at),
        from <= at < src.len(),
        !class.holds(char_at(src, at)),
    ensures
        run_end(src, from, class) <= at,
    decreases at - from,
{
    if from < at && class.holds(char_at(src, from)) {
        lemma_char_step(src, from);
        lemma_no_position_within_char(src, from, at);
        lemma_run_stops_at(src, from + width_at(src, from), at, class);
    }
}

/// No two hyphens stand side by side in `src` before offset `at`.
pub open spec fn no_comment_before(src: Seq<u8>, at: int) -> bool {
    forall|j: int| 0 <= j < at && j + 1 < src.len() ==> !(#[trigger] src[j] == 0x2d && src[j + 1]
        == 0x2d)
}

/// From a position at or before a double quote that no comment can hold,
/// lexing fails.
pub proof fn lemma_quote_is_rejected_from(src: Seq<u8>, pos: int, at: int)
    requires
        valid_utf8(src),
        src.len() <= usize::MAX,
        is_position(src, pos),
        pos <= at < src.len(),
        src[at] == 0x22,
        no_comment_before(src, at),
    ensures
        lex_from(src, pos) is Err,
    decreases src.len() - pos,
{
    reveal(token_at);
    lemma_ascii_at(src, at);
    let quote = char_at(src, at);
    assert(quote == '"');
    lemma_run_end_position(src, pos, CharClass::Space);
    lemma_run_stops_at(src, pos, at, CharClass::Space);
    lemma_scan_progress(src, pos);
    let start = run_end(src, pos, CharClass::Space);
    let scan = scan_token(src, pos);
    if start < at {
        lemma_char_step(src, start);
        lemma_no_position_within_char(src, start, at);
        let c = char_at(src, start);
        let after = start + width_at(src, start);
        if c == '-' && peek_at(src, after) == Some('-') {
            lemma_ascii_char(src, start);
            lemma_ascii_char(src, after);
            assert(src[start] == 0x2d && src[start + 1] == 0x2d);
            assert(false);
        }
        lemma_run_stops_at(src, after, at, CharClass::Digit);
        lemma_run_stops_at(src, after, at, CharClass::Identifier);
        let whole_end = run_end(src, after, CharClass::Digit);
        lemma_run_end_position(src, after, CharClass::Digit);
        if peek_at(src, whole_end) == Some('.') {
            lemma_ascii_char(src, whole_end);
            lemma_no_position_within_char(src, whole_end, at);
            lemma_run_stops_at(src, whole_end + 1, at, CharClass::Digit);
        }
        if scan.item is Ok {
            assert(scan.next <= at);
            lemma_quote_is_rejected_from(src, scan.next, at);
        }
    }
}

/// A double quote makes a text untokenizable, wherever it stands, unless a
/// comment holds it: where no two hyphens stand side by side before the
/// quote, the text has no tokens but a lexical error.
pub proof fn lemma_quote_is_rejected(src: Seq<u8>, at: int)
    requires
        valid_utf8(src),
        src.len() <= usize::MAX,
        0 <= at < src.len(),
        src[at] == 0x22,
        no_comment_before(src, at),
    ensures
        lex(src) is Err,
{
    is_char_boundary_start_end_of_seq(src);
    lemma_quote_is_rejected_from(src, 0, at);
}

/// The end of input is final: at the end of a text the lexer yields the
/// end-of-input token and stays where it is, however often it is asked.
pub proof fn lemma_end_of_input_repeats(src: Seq<u8>)
    ensures
        scan_token(src, src.len() as int) == scanned(
            TokenKind::EOF,
            src.len() as int,
            src.len() as int,
        ),
        scan_token(src, src.len() as int).next == src.len(),
{
    reveal(token_at);
}

/// The bytes of a run of digits are digits.
pub proof fn lemma_digit_run_bytes(src: Seq<u8>, from: int, to: int)
    requires
        valid_utf8(src),
        is_position(src, from),
        from <= to <= src.len(),
        all_in_class(src, from, to, CharClass::Digit),
    ensures
        forall|k: int| from <= k < to ==> is_digit_byte(#[trigger] src[k]),
    decreases to - from,
{
    if from < to {
        lemma_ascii_char(src, from);
        lemma_digit_run_bytes(src, from + 1, to);
    }
}

/// A numeric literal without a point is an integer literal in full: its
/// text is an optional minus sign and then digits, one at least. So the
/// lexer fails on it only where its value does not fit in 64 bits.
pub proof fn lemma_integer_literal_text(src: Seq<u8>, start: int)
    requires
        valid_utf8(src),
        is_position(src, start),
        start < src.len(),
        is_ascii_digit(char_at(src, start)) || (char_at(src, start) == '-' && digit_follows(
            src,
            start + 1,
        )),
        peek_at(src, run_end(src, start + 1, CharClass::Digit)) != Some('.'),
    ensures
        is_integer_text(src.subrange(start, run_end(src, start + 1, CharClass::Digit))),
        match number_at(src, start, start + 1).item {
            Ok(token) => token.typ == TokenKind::IntegerLit(
                integer_value(src.subrange(start, run_end(src, start + 1, CharClass::Digit))),
            ),
            Err(error) => error.kind == LexErrorKind::IntegerOutOfRange && !(i64::MIN
                <= integer_value(src.subrange(start, run_end(src, start + 1, CharClass::Digit)))
                <= i64::MAX),
        },
{
    let end = run_end(src, start + 1, CharClass::Digit);
    let text = src.subrange(start, end);
    lemma_ascii_char(src, start);
    lemma_run_end_position(src, start + 1, CharClass::Digit);
    lemma_run_is_in_class(src, start + 1, CharClass::Digit);
    lemma_digit_run_bytes(src, start + 1, end);
    assert(text[0] == src[start]);
    let digits = magnitude_digits(text);
    if char_at(src, start) == '-' {
        lemma_ascii_char(src, start + 1);
        lemma_run_end_position(src, start + 2, CharClass::Digit);
        assert(end == run_end(src, start + 2, CharClass::Digit));
        assert(digits =~= src.subrange(start + 1, end));
        assert forall|i: int| 0 <= i < digits.len() implies is_digit_byte(#[trigger] digits[i]) by {
            assert(digits[i] == src[start + 1 + i]);
        }
    } else {
        assert(digits =~= text);
        assert forall|i: int| 0 <= i < digits.len() implies is_digit_byte(#[trigger] digits[i]) by {
            assert(digits[i] == src[start + i]);
        }
    }
    assert(all_digits(digits));
}

/// A token that carries text carries the text that its span covers, and a
/// keyword spans the word that spells it.
pub proof fn lemma_token_text(src: Seq<u8>, pos: int)
    requires
        valid_utf8(src),
        is_position(src, pos),
        src.len() <= usize::MAX,
        scan_token(src, pos).item is Ok,
    ensures
        ({
            let token = scan_token(src, pos).item->Ok_0;
            let text = text_of(src, token.span.start as int, token.span.end as int);
            match token.typ {
                TokenKind::Ident(name) => name == text && keyword_kind(text) is None,
                TokenKind::Comment(comment) => comment == text,
                TokenKind::FloatLit(literal) => literal == text,
                TokenKind::Module | TokenKind::Type | TokenKind::TypeAlias | TokenKind::Exposing
                | TokenKind::Import => keyword_kind(text) == Some(token.typ),
                _ => true,
            }
        }),
{
    reveal(token_at);
    lemma_scan_span(src, pos);
    let start = run_end(src, pos, CharClass::Space);
    lemma_run_end_position(src, pos, CharClass::Space);
    if start < src.len() {
        lemma_char_step(src, start);
    }
}

} // verus!
