//! Reading positions and slices of a source text.

use vstd::prelude::*;
use vstd::utf8::{
    decode_utf8, encode_utf8, encode_utf8_decode_utf8, encode_utf8_valid_utf8, is_char_boundary,
    is_char_boundary_iff_not_is_continuation_byte, is_char_boundary_start_end_of_seq,
    valid_utf8, valid_utf8_split,
};

use crate::pyast::Span;
use crate::text::{chars_of, squeeze, squeezed, text_of, trim, trimmed};

verus! {

/// True when the parser can count the bytes of the text.
pub open spec fn fits(source: Seq<char>) -> bool {
    encode_utf8(source).len() <= u32::MAX
}

/// How many of the first `n` bytes end a line.
pub open spec fn newlines(bytes: Seq<u8>, n: int) -> int
    decreases n,
{
    if n <= 0 {
        0
    } else {
        newlines(bytes, n - 1) + if bytes[n - 1] == 10 {
            1int
        } else {
            0
        }
    }
}

/// The line, counted from one, that a byte offset falls on. Lines are counted
/// in 32 bits.
pub open spec fn line_at(source: Seq<char>, off: usize) -> u32 {
    let b = encode_utf8(source);
    let n = if off < b.len() {
        off as int
    } else {
        b.len() as int
    };
    ((newlines(b, n) % 0x1_0000_0000 + 1) % 0x1_0000_0000) as u32
}

/// The line, counted from one, that a byte offset falls on.
pub fn byte_to_line(source: &str, byte_off: usize) -> (r: u32)
    ensures
        r == line_at(source@, byte_off),
{
    let bytes = source.as_bytes();
    let off: usize = if byte_off < bytes.len() {
        byte_off
    } else {
        bytes.len()
    };
    let mut count: u64 = 0;
    let mut i: usize = 0;
    while i < off
        invariant
            i <= off <= bytes@.len(),
            count == newlines(bytes@, i as int),
            count <= i,
        decreases off - i,
    {
        if bytes[i] == 10 {
            count = count + 1;
        }
        i = i + 1;
    }
    let low: u64 = count % 0x1_0000_0000;
    let next: u64 = (low + 1) % 0x1_0000_0000;
    next as u32
}

/// The text between two byte offsets, when both fall between characters.
pub open spec fn text_between(source: Seq<char>, start: int, end: int) -> Option<Seq<char>> {
    let b = encode_utf8(source);
    if 0 <= start <= end && is_char_boundary(b, start) && is_char_boundary(b, end) {
        Some(decode_utf8(b.subrange(start, end)))
    } else {
        None
    }
}

/// The text of a byte range; empty when the range does not fall between
/// characters.
pub open spec fn span_text(source: Seq<char>, span: Span) -> Seq<char> {
    match text_between(source, span.start as int, span.end as int) {
        Some(t) => t,
        None => Seq::empty(),
    }
}

proof fn boundary_within(b: Seq<u8>, start: int, end: int)
    requires
        valid_utf8(b),
        0 <= start <= end,
        is_char_boundary(b, start),
        is_char_boundary(b, end),
    ensures
        end <= b.len(),
        valid_utf8(b.subrange(0, end)),
        is_char_boundary(b.subrange(0, end), start),
{
    if end > b.len() {
        assert(end != 0);
    }
    valid_utf8_split(b, end);
    let p = b.subrange(0, end);
    if start == end {
        is_char_boundary_start_end_of_seq(p);
    } else {
        is_char_boundary_iff_not_is_continuation_byte(b, start);
        is_char_boundary_iff_not_is_continuation_byte(p, start);
        assert(p[start] == b[start]);
    }
}

pub fn slice(source: &str, span: Span) -> (r: String)
    ensures
        r@ == span_text(source@, span),
{
    let ghost b = encode_utf8(source@);
    if span.start <= span.end && source.is_char_boundary(span.start) && source.is_char_boundary(
        span.end,
    ) {
        proof {
            encode_utf8_valid_utf8(source@);
            boundary_within(b, span.start as int, span.end as int);
        }
        let (head, _) = source.split_at(span.end);
        let (_, middle) = head.split_at(span.start);
        proof {
            assert(b.subrange(0, span.end as int).subrange(span.start as int, span.end as int)
                =~= b.subrange(span.start as int, span.end as int));
            encode_utf8_decode_utf8(middle@);
        }
        middle.to_owned()
    } else {
        String::new()
    }
}

/// The text of a byte range without the blanks around it.
pub open spec fn source_text(source: Seq<char>, span: Span) -> Seq<char> {
    trimmed(span_text(source, span))
}

pub fn span_source_text(source: &str, span: Span) -> (r: String)
    ensures
        r@ == source_text(source@, span),
{
    let s = slice(source, span);
    trim(s.as_str())
}

/// A one-line label of at most eighty characters for a byte range: its words,
/// cut short with an ellipsis.
pub open spec fn label_of(source: Seq<char>, span: Span) -> Seq<char> {
    let words = squeezed(span_text(source, span));
    if words.len() > 80 {
        words.subrange(0, 77).push('\u{2026}')
    } else {
        words
    }
}

pub fn label(source: &str, span: Span) -> (r: String)
    ensures
        r@ == label_of(source@, span),
{
    let s = slice(source, span);
    let words = squeeze(s.as_str());
    let v = chars_of(words.as_str());
    if v.len() > 80 {
        let mut out = text_of(&v, 0, 77);
        out.push('\u{2026}');
        out
    } else {
        words
    }
}

} // verus!
