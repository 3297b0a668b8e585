//! Byte offsets and character boundaries in UTF-8 text.
//!
//! A `str` is modelled by its UTF-8 bytes, and every offset in this crate is
//! a byte offset into them. An offset is a *character boundary* if it is the
//! start of the text, its end, or the first byte of a character.

use vstd::prelude::*;
use vstd::string::*;
use vstd::utf8::*;

verus! {

/// The code point of the character whose encoding starts at byte `at`.
pub open spec fn scalar_at(text: Seq<u8>, at: int) -> u32 {
    decode_first_scalar(text.subrange(at, text.len() as int))
}

/// The number of bytes that encode the character starting at byte `at`.
pub open spec fn width_at(text: Seq<u8>, at: int) -> int {
    length_of_first_scalar(text.subrange(at, text.len() as int))
}

/// A character that starts on a boundary inside valid text is wholly inside
/// it, and the offset after it is a boundary again.
pub proof fn lemma_char_step(text: Seq<u8>, at: int)
    requires
        valid_utf8(text),
        0 <= at < text.len(),
        is_char_boundary(text, at),
    ensures
        valid_first_scalar(text.subrange(at, text.len() as int)),
        1 <= width_at(text, at) <= 4,
        at + width_at(text, at) <= text.len(),
        is_char_boundary(text, at + width_at(text, at)),
{
    let rest = text.subrange(at, text.len() as int);
    let next = at + width_at(text, at);
    valid_utf8_split(text, at);
    assert(valid_first_scalar(rest) && valid_utf8(pop_first_scalar(rest)));
    if next < text.len() {
        is_char_boundary_iff_not_is_continuation_byte(text, next);
    } else {
        is_char_boundary_start_end_of_seq(text);
    }
}

/// An ASCII byte on a boundary is a character of its own.
pub proof fn lemma_ascii_step(text: Seq<u8>, at: int)
    requires
        valid_utf8(text),
        0 <= at < text.len(),
        is_char_boundary(text, at),
        text[at] < 0x80,
    ensures
        width_at(text, at) == 1,
        scalar_at(text, at) == text[at],
        is_char_boundary(text, at + 1),
{
    lemma_char_step(text, at);
    let b = text[at];
    assert(b & 0x7F == b) by (bit_vector)
        requires
            b < 0x80,
    ;
}

/// After ASCII bytes that start on a character boundary comes a boundary.
pub proof fn lemma_ascii_span(text: Seq<u8>, from: int, to: int)
    requires
        valid_utf8(text),
        0 <= from <= to <= text.len(),
        is_char_boundary(text, from),
        forall|i: int| from <= i < to ==> #[trigger] text[i] < 0x80,
    ensures
        is_char_boundary(text, to),
    decreases to - from,
{
    if from < to {
        lemma_ascii_step(text, from);
        lemma_ascii_span(text, from + 1, to);
    }
}

/// An ASCII byte of valid text stands on a character boundary.
pub proof fn lemma_ascii_boundary(text: Seq<u8>, at: int)
    requires
        valid_utf8(text),
        0 <= at < text.len(),
        text[at] < 0x80,
    ensures
        is_char_boundary(text, at),
{
    is_char_boundary_iff_not_is_continuation_byte(text, at);
}

/// The text between two boundaries of valid text is valid, and a boundary of
/// the whole text that lies between them is a boundary of that part.
pub proof fn lemma_boundary_in_span(text: Seq<u8>, from: int, mid: int, to: int)
    requires
        valid_utf8(text),
        0 <= from <= mid <= to <= text.len(),
        is_char_boundary(text, from),
        is_char_boundary(text, mid),
        is_char_boundary(text, to),
    ensures
        valid_utf8(text.subrange(from, to)),
        is_char_boundary(text.subrange(from, to), mid - from),
{
    let head = text.subrange(0, to);
    let part = text.subrange(from, to);
    valid_utf8_split(text, to);
    if from < to {
        is_char_boundary_iff_not_is_continuation_byte(text, from);
        is_char_boundary_iff_not_is_continuation_byte(head, from);
    } else {
        is_char_boundary_start_end_of_seq(head);
    }
    valid_utf8_split(head, from);
    assert(head.subrange(from, head.len() as int) =~= part);
    if mid < to {
        is_char_boundary_iff_not_is_continuation_byte(text, mid);
        is_char_boundary_iff_not_is_continuation_byte(part, mid - from);
    } else {
        is_char_boundary_start_end_of_seq(part);
    }
}

/// The part of `text` from byte `start` up to byte `end`.
pub(crate) fn slice_between<'a>(text: &'a str, start: usize, end: usize) -> (part: &'a str)
    requires
        start <= end <= text.spec_bytes().len(),
        is_char_boundary(text.spec_bytes(), start as int),
        is_char_boundary(text.spec_bytes(), end as int),
    ensures
        part.spec_bytes() == text.spec_bytes().subrange(start as int, end as int),
        part@ == decode_utf8(text.spec_bytes().subrange(start as int, end as int)),
{
    proof {
        encode_utf8_valid_utf8(text@);
        lemma_boundary_in_span(text.spec_bytes(), 0, start as int, end as int);
    }
    let head = text.split_at(end).0;
    let part = head.split_at(start).1;
    proof {
        encode_utf8_decode_utf8(part@);
    }
    part
}

} // verus!
