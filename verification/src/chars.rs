//! Characters of the source text.
//!
//! The source is held as UTF-8. Positions are byte offsets, and the character
//! that starts at an offset is read by decoding the bytes found there. The
//! classes of characters that the lexer distinguishes are defined here.

use vstd::prelude::*;
use vstd::string::*;
use vstd::utf8::*;

verus! {

/// What `char::is_alphanumeric` answers for `c`.
pub uninterp spec fn unicode_alphanumeric(c: char) -> bool;

/// What `char::is_whitespace` answers for `c`.
pub uninterp spec fn unicode_whitespace(c: char) -> bool;

/// Trusted: calls `char::is_alphanumeric`. The standard library decides the
/// answer from the Unicode tables; the contract only gives that answer a name.
#[verifier::external_body]
fn char_is_alphanumeric(c: char) -> (r: bool)
    ensures
        r == unicode_alphanumeric(c),
{
    c.is_alphanumeric()
}

/// Trusted: calls `char::is_whitespace`. The standard library decides the
/// answer from the Unicode tables; the contract only gives that answer a name.
#[verifier::external_body]
fn char_is_whitespace(c: char) -> (r: bool)
    ensures
        r == unicode_whitespace(c),
{
    c.is_whitespace()
}

/// Trusted: calls `char::from_u32`, which yields the character with the given
/// scalar value and yields nothing exactly when the number is no scalar value.
#[verifier::external_body]
fn char_from_u32(v: u32) -> (r: Option<char>)
    ensures
        match r {
            Some(c) => c as u32 == v,
            None => !is_scalar(v),
        },
{
    char::from_u32(v)
}

/// `c` is one of the letters `a` to `z` or `A` to `Z`.
pub open spec fn is_ascii_letter(c: char) -> bool {
    ('a' <= c && c <= 'z') || ('A' <= c && c <= 'Z')
}

/// `c` is one of the digits `0` to `9`.
pub open spec fn is_ascii_digit(c: char) -> bool {
    '0' <= c && c <= '9'
}

/// `c` lies outside the ASCII range.
pub open spec fn is_beyond_ascii(c: char) -> bool {
    c > '\u{7f}'
}

/// `c` may begin an identifier: an ASCII letter or an underscore.
pub open spec fn is_ident_start(c: char) -> bool {
    is_ascii_letter(c) || c == '_'
}

/// `c` may continue an identifier, given what the Unicode tables say of it.
/// Within ASCII the letters, the digits and the underscore qualify; beyond
/// ASCII the tables decide.
pub open spec fn ident_char_given(c: char, alphanumeric: bool) -> bool {
    c == '_' || is_ascii_letter(c) || is_ascii_digit(c) || (is_beyond_ascii(c) && alphanumeric)
}

/// `c` may continue an identifier.
pub open spec fn is_ident_char(c: char) -> bool {
    ident_char_given(c, unicode_alphanumeric(c))
}

/// `c` separates tokens, given what the Unicode tables say of it. Within
/// ASCII these are the space and the controls from tab to carriage return;
/// beyond ASCII the tables decide.
pub open spec fn space_given(c: char, whitespace: bool) -> bool {
    c == ' ' || ('\t' <= c && c <= '\r') || (is_beyond_ascii(c) && whitespace)
}

/// `c` separates tokens and is skipped.
pub open spec fn is_space(c: char) -> bool {
    space_given(c, unicode_whitespace(c))
}

/// Decides whether `c` is one of the digits `0` to `9`.
pub fn is_decimal_digit(c: char) -> (r: bool)
    ensures
        r == is_ascii_digit(c),
{
    '0' <= c && c <= '9'
}

/// Decides whether `c` may begin an identifier.
pub fn is_valid_ident_start(c: char) -> (r: bool)
    ensures
        r == is_ident_start(c),
{
    ('a' <= c && c <= 'z') || ('A' <= c && c <= 'Z') || c == '_'
}

/// Decides whether `c` may continue an identifier, from the character and the
/// answer of the Unicode tables for it.
pub fn classify_ident_char(c: char, alphanumeric: bool) -> (r: bool)
    ensures
        r == ident_char_given(c, alphanumeric),
{
    c == '_' || ('a' <= c && c <= 'z') || ('A' <= c && c <= 'Z') || ('0' <= c && c <= '9') || (c
        > '\u{7f}' && alphanumeric)
}

/// Decides whether `c` separates tokens, from the character and the answer of
/// the Unicode tables for it.
pub fn classify_space(c: char, whitespace: bool) -> (r: bool)
    ensures
        r == space_given(c, whitespace),
{
    c == ' ' || ('\t' <= c && c <= '\r') || (c > '\u{7f}' && whitespace)
}

/// Decides whether `c` may continue an identifier.
pub fn is_valid_ident_char(c: char) -> (r: bool)
    ensures
        r == is_ident_char(c),
{
    let alphanumeric = char_is_alphanumeric(c);
    classify_ident_char(c, alphanumeric)
}

/// Decides whether `c` separates tokens.
pub fn is_space_char(c: char) -> (r: bool)
    ensures
        r == is_space(c),
{
    let whitespace = char_is_whitespace(c);
    classify_space(c, whitespace)
}

/// The character whose encoding starts at offset `i` of `bytes`.
pub open spec fn char_at(bytes: Seq<u8>, i: int) -> char {
    decode_first_scalar(bytes.subrange(i, bytes.len() as int)) as char
}

/// The number of bytes that the character at offset `i` of `bytes` takes.
pub open spec fn width_at(bytes: Seq<u8>, i: int) -> int {
    length_of_first_scalar(bytes.subrange(i, bytes.len() as int))
}

/// `i` is an offset of `bytes` at which a character starts, or its end.
pub open spec fn is_position(bytes: Seq<u8>, i: int) -> bool {
    0 <= i <= bytes.len() && is_char_boundary(bytes, i)
}

/// A character of one to four bytes starts at every position before the end
/// of well-formed UTF-8, and the offset behind it is a position again.
pub proof fn lemma_char_step(bytes: Seq<u8>, i: int)
    requires
        valid_utf8(bytes),
        is_position(bytes, i),
        i < bytes.len(),
    ensures
        valid_first_scalar(bytes.subrange(i, bytes.len() as int)),
        1 <= width_at(bytes, i) <= 4,
        i + width_at(bytes, i) <= bytes.len(),
        is_position(bytes, i + width_at(bytes, i)),
        !is_continuation_byte(bytes[i]),
{
    let len = bytes.len() as int;
    let rest = bytes.subrange(i, len);
    valid_utf8_split(bytes, i);
    assert(rest.len() > 0);
    assert(rest[0] == bytes[i]);
    assert(valid_utf8(rest));
    assert(valid_first_scalar(rest));
    let w = length_of_first_scalar(rest);
    let j = i + w;
    if j < len {
        let tail = pop_first_scalar(rest);
        assert(valid_utf8(tail));
        assert(tail =~= bytes.subrange(j, len));
        assert(tail.len() > 0);
        assert(valid_first_scalar(tail));
        assert(tail[0] == bytes[j]);
        is_char_boundary_iff_not_is_continuation_byte(bytes, j);
    } else {
        is_char_boundary_start_end_of_seq(bytes);
    }
}

/// A byte below 128 at a position is a character of its own, and that
/// character has the byte's value.
pub proof fn lemma_ascii_at(bytes: Seq<u8>, i: int)
    requires
        valid_utf8(bytes),
        0 <= i < bytes.len(),
        bytes[i] < 0x80,
    ensures
        is_position(bytes, i),
        is_position(bytes, i + 1),
        width_at(bytes, i) == 1,
        char_at(bytes, i) as u8 == bytes[i],
        char_at(bytes, i) <= '\u{7f}',
{
    let b = bytes[i];
    is_char_boundary_iff_not_is_continuation_byte(bytes, i);
    assert(bytes.subrange(i, bytes.len() as int)[0] == b);
    lemma_char_step(bytes, i);
    assert((b & 0x7f) as u32 == b as u32) by (bit_vector)
        requires
            b < 0x80,
    ;
}

/// The character at a position is beyond ASCII exactly when its first byte
/// is 128 or more.
pub proof fn lemma_wide_at(bytes: Seq<u8>, i: int)
    requires
        valid_utf8(bytes),
        is_position(bytes, i),
        i < bytes.len(),
        bytes[i] >= 0x80,
    ensures
        is_beyond_ascii(char_at(bytes, i)),
{
    lemma_char_step(bytes, i);
    let rest = bytes.subrange(i, bytes.len() as int);
    assert(rest[0] == bytes[i]);
    lemma_scalar_of_first(rest);
}

/// The number that well-formed UTF-8 starts with is a scalar value, and it
/// is at least 128 unless it is written with one byte.
proof fn lemma_scalar_of_first(rest: Seq<u8>)
    requires
        valid_first_scalar(rest),
    ensures
        is_scalar(decode_first_scalar(rest)),
        length_of_first_scalar(rest) > 1 ==> decode_first_scalar(rest) >= 0x80,
        (decode_first_scalar(rest) as char) as u32 == decode_first_scalar(rest),
{
    let b0 = rest[0];
    if is_leading_byte_width_1(b0) {
        assert((b0 & 0x7f) as u32 <= 0x7f) by (bit_vector);
    } else if is_leading_byte_width_2(b0) {
        let b1 = rest[1];
        assert((((b0 & 0x1f) as u32) << 6) | ((b1 & 0x3f) as u32) <= 0x7ff) by (bit_vector);
    } else if is_leading_byte_width_3(b0) {
        let b1 = rest[1];
        let b2 = rest[2];
        assert((((b0 & 0x0f) as u32) << 12) | (((b1 & 0x3f) as u32) << 6) | ((b2 & 0x3f) as u32)
            <= 0xffff) by (bit_vector);
    } else {
    }
}

/// Reads the character that starts at offset `i`, and says how many bytes it
/// takes.
pub fn decode_char(bytes: &[u8], i: usize) -> (r: (char, usize))
    requires
        valid_utf8(bytes@),
        is_position(bytes@, i as int),
        i < bytes@.len(),
    ensures
        r.0 == char_at(bytes@, i as int),
        r.1 == width_at(bytes@, i as int),
        1 <= r.1 <= 4,
        i + r.1 <= bytes@.len(),
        is_position(bytes@, i + r.1),
{
    let ghost rest = bytes@.subrange(i as int, bytes@.len() as int);
    proof {
        lemma_char_step(bytes@, i as int);
        lemma_scalar_of_first(rest);
        assert(rest[0] == bytes@[i as int]);
    }
    let b0 = bytes[i];
    if b0 < 0x80 {
        proof {
            lemma_ascii_at(bytes@, i as int);
        }
        (b0 as char, 1)
    } else if b0 < 0xe0 {
        assert(rest[1] == bytes@[i + 1]);
        let b1 = bytes[i + 1];
        let scalar: u32 = (((b0 & 0x1f) as u32) << 6) | ((b1 & 0x3f) as u32);
        (scalar_to_char(scalar), 2)
    } else if b0 < 0xf0 {
        assert(rest[1] == bytes@[i + 1]);
        assert(rest[2] == bytes@[i + 2]);
        let b1 = bytes[i + 1];
        let b2 = bytes[i + 2];
        let scalar: u32 = (((b0 & 0x0f) as u32) << 12) | (((b1 & 0x3f) as u32) << 6) | ((b2
            & 0x3f) as u32);
        (scalar_to_char(scalar), 3)
    } else {
        assert(rest[1] == bytes@[i + 1]);
        assert(rest[2] == bytes@[i + 2]);
        assert(rest[3] == bytes@[i + 3]);
        let b1 = bytes[i + 1];
        let b2 = bytes[i + 2];
        let b3 = bytes[i + 3];
        let scalar: u32 = (((b0 & 0x07) as u32) << 18) | (((b1 & 0x3f) as u32) << 12) | (((b2
            & 0x3f) as u32) << 6) | ((b3 & 0x3f) as u32);
        (scalar_to_char(scalar), 4)
    }
}

/// The character with the given scalar value.
fn scalar_to_char(scalar: u32) -> (c: char)
    requires
        is_scalar(scalar),
    ensures
        c == scalar as char,
        c as u32 == scalar,
{
    match char_from_u32(scalar) {
        Some(c) => {
            proof {
                char_u32_cast(c, scalar);
            }
            c
        },
        None => vstd::pervasive::unreached(),
    }
}

/// The part of `s` between the byte offsets `start` and `end`.
pub fn substring<'a>(s: &'a str, start: usize, end: usize) -> (part: &'a str)
    requires
        start <= end,
        is_position(s.spec_bytes(), start as int),
        is_position(s.spec_bytes(), end as int),
    ensures
        part.spec_bytes() == s.spec_bytes().subrange(start as int, end as int),
        part@ == decode_utf8(s.spec_bytes().subrange(start as int, end as int)),
{
    broadcast use group_utf8_lib;

    let (head, _) = s.split_at(end);
    proof {
        let b = s.spec_bytes();
        let h = head.spec_bytes();
        valid_utf8_split(b, end as int);
        if start < end {
            is_char_boundary_iff_not_is_continuation_byte(b, start as int);
            is_char_boundary_iff_not_is_continuation_byte(h, start as int);
        } else {
            is_char_boundary_start_end_of_seq(h);
        }
    }
    let (_, part) = head.split_at(start);
    proof {
        encode_utf8_decode_utf8(part@);
    }
    part
}

/// Decides whether two strings hold the same characters.
pub fn str_eq(a: &str, b: &str) -> (same: bool)
    ensures
        same == (a@ == b@),
{
    let x = a.as_bytes();
    let y = b.as_bytes();
    proof {
        encode_utf8_decode_utf8(a@);
        encode_utf8_decode_utf8(b@);
    }
    if x.len() != y.len() {
        return false;
    }
    let mut i: usize = 0;
    while i < x.len()
        invariant
            i <= x@.len(),
            x@.len() == y@.len(),
            x@ == a.spec_bytes(),
            y@ == b.spec_bytes(),
            forall|k: int| 0 <= k < i ==> x@[k] == y@[k],
        decreases x@.len() - i,
    {
        if x[i] != y[i] {
            return false;
        }
        i = i + 1;
    }
    assert(x@ =~= y@);
    true
}

} // verus!
