//! Lines and columns.
//!
//! Both are counted from 1. A line ends with its line feed, so the line feed
//! belongs to the line that it ends. A column is counted in bytes.

use vstd::prelude::*;

verus! {

/// The number of line feeds among the first `at` bytes of the text.
pub open spec fn newlines_before(text: Seq<u8>, at: int) -> nat
    decreases at,
{
    if at <= 0 {
        0
    } else if text[at - 1] == '\n' as u8 {
        1 + newlines_before(text, at - 1)
    } else {
        newlines_before(text, at - 1)
    }
}

/// The offset at which the line of offset `at` starts: that after the last
/// line feed among the first `at` bytes, or 0 if there is none.
pub open spec fn line_start(text: Seq<u8>, at: int) -> int
    decreases at,
{
    if at <= 0 {
        0
    } else if text[at - 1] == '\n' as u8 {
        at
    } else {
        line_start(text, at - 1)
    }
}

/// The line of offset `at`.
pub open spec fn line_of(text: Seq<u8>, at: int) -> nat {
    1 + newlines_before(text, at)
}

/// The column of offset `at`.
pub open spec fn column_of(text: Seq<u8>, at: int) -> nat {
    (at - line_start(text, at) + 1) as nat
}

/// A line starts at or before each of its offsets, and there are no more line
/// feeds before an offset than bytes.
pub proof fn lemma_position_bounds(text: Seq<u8>, at: int)
    requires
        0 <= at,
    ensures
        0 <= line_start(text, at) <= at,
        newlines_before(text, at) <= at,
    decreases at,
{
    if at > 0 {
        lemma_position_bounds(text, at - 1);
    }
}

/// Two offsets with no line feed from the first up to the second are on one
/// line.
pub proof fn lemma_same_line(text: Seq<u8>, from: int, to: int)
    requires
        0 <= from <= to,
        forall|i: int| from <= i < to ==> #[trigger] text[i] != '\n' as u8,
    ensures
        newlines_before(text, to) == newlines_before(text, from),
        line_start(text, to) == line_start(text, from),
    decreases to - from,
{
    if from < to {
        lemma_same_line(text, from, to - 1);
    }
}

/// What the line and the column of an offset say of it: the line's number
/// is one more than the number of line feeds before the offset; the line
/// starts at the start of the text or just after a line feed, `column - 1`
/// bytes before the offset; and no line feed lies between.
pub proof fn lemma_position_locates(text: Seq<u8>, at: int)
    requires
        0 <= at <= text.len(),
    ensures
        line_of(text, at) == 1 + text.subrange(0, at).filter(|b: u8| b == '\n' as u8).len(),
        column_of(text, at) >= 1,
        ({
            let start = at - (column_of(text, at) - 1);
            &&& 0 <= start <= at
            &&& start == 0 || text[start - 1] == '\n' as u8
            &&& forall|i: int| start <= i < at ==> #[trigger] text[i] != '\n' as u8
        }),
    decreases at,
{
    if at > 0 {
        lemma_position_locates(text, at - 1);
        let before = text.subrange(0, at - 1);
        assert(text.subrange(0, at) =~= before.push(text[at - 1]));
        assert(before.push(text[at - 1]).drop_last() =~= before);
        reveal(Seq::filter);
        if text[at - 1] != '\n' as u8 {
            lemma_position_bounds(text, at - 1);
        }
    }
}

} // verus!
