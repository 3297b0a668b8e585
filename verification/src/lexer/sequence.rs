//! The tokens of a text, one after another.

use vstd::prelude::*;
use vstd::utf8::*;

use crate::lexer::laws::lemma_token_ends_on_boundary;
use crate::lexer::position::{column_of, line_of};
use crate::lexer::rules::token_at;
use crate::lexer::token::{token_view, TokenView};
use crate::text::lemma_boundary_in_span;

verus! {

/// The tokens of `text` from offset `at` on, up to the end of the text or to
/// the first offset at which there is no token.
pub open spec fn tokens_from(text: Seq<u8>, at: int) -> Seq<TokenView>
    decreases text.len() - at,
{
    if 0 <= at < text.len() {
        match token_at(text, at) {
            Some((kind, len)) => seq![token_view(text, at, kind, len)] + tokens_from(
                text,
                at + len,
            ),
            None => Seq::empty(),
        }
    } else {
        Seq::empty()
    }
}

/// The offset at which the tokens of `text` from `at` on end: the end of the
/// text, or the first offset at which there is no token.
pub open spec fn stop_from(text: Seq<u8>, at: int) -> int
    decreases text.len() - at,
{
    if 0 <= at < text.len() {
        match token_at(text, at) {
            Some((kind, len)) => stop_from(text, at + len),
            None => at,
        }
    } else {
        at
    }
}

/// The offset at which the token of index `index` among `tokens` starts, if
/// the first of them starts at `at` and each starts where the one before it
/// ends.
pub open spec fn start_of(tokens: Seq<TokenView>, at: int, index: int) -> int
    decreases index,
{
    if index <= 0 {
        at
    } else {
        start_of(tokens, at, index - 1) + tokens[index - 1].slice.len()
    }
}

/// Each token of a text stands where the tokens before it end; its text is
/// the text at that offset, and its line and column are those of that
/// offset.
pub proof fn lemma_tokens_are_located(text: Seq<u8>, at: int, index: int)
    requires
        0 <= at <= text.len(),
        0 <= index < tokens_from(text, at).len(),
    ensures
        ({
            let token = tokens_from(text, at)[index];
            let start = start_of(tokens_from(text, at), at, index);
            &&& at <= start
            &&& start + token.slice.len() <= stop_from(text, at) <= text.len()
            &&& token_at(text, start) == Some((token.kind, token.slice.len()))
            &&& token.slice == text.subrange(start, start + token.slice.len())
            &&& token.line == line_of(text, start)
            &&& token.column == column_of(text, start)
        }),
    decreases index,
{
    let tokens = tokens_from(text, at);
    let (kind, len) = token_at(text, at).unwrap();
    let rest = tokens_from(text, at + len);
    lemma_slices_rebuild_text(text, at + len);
    assert(tokens.drop_first() =~= rest);
    if index > 0 {
        lemma_tokens_are_located(text, at + len, index - 1);
        lemma_start_of_rest(tokens, at, index);
    }
}

/// The tokens after the first start where they would start if the first
/// were left out and the count began behind it.
proof fn lemma_start_of_rest(tokens: Seq<TokenView>, at: int, index: int)
    requires
        0 < index <= tokens.len(),
    ensures
        start_of(tokens, at, index) == start_of(
            tokens.drop_first(),
            at + tokens[0].slice.len(),
            index - 1,
        ),
    decreases index,
{
    if index > 1 {
        lemma_start_of_rest(tokens, at, index - 1);
    } else {
        assert(start_of(tokens, at, 0) == at);
    }
}

/// The texts of the tokens from an offset on, put together in their order, are
/// the text from that offset up to where the tokens end.
pub proof fn lemma_slices_rebuild_text(text: Seq<u8>, at: int)
    requires
        0 <= at <= text.len(),
    ensures
        at <= stop_from(text, at) <= text.len(),
        tokens_from(text, at).map_values(|token: TokenView| token.slice).flatten()
            == text.subrange(at, stop_from(text, at)),
    decreases text.len() - at,
{
    let slice_of = |token: TokenView| token.slice;
    let slices = tokens_from(text, at).map_values(slice_of);
    if at < text.len() && token_at(text, at) is Some {
        let (kind, len) = token_at(text, at).unwrap();
        let rest = tokens_from(text, at + len);
        lemma_slices_rebuild_text(text, at + len);
        assert(slices.drop_first() =~= rest.map_values(slice_of));
    }
}

/// Where every offset of a document is covered by a token, the texts of the
/// tokens put together in their order are the document.
pub proof fn lemma_slices_rebuild_document(text: Seq<u8>)
    requires
        stop_from(text, 0) == text.len(),
    ensures
        tokens_from(text, 0).map_values(|token: TokenView| token.slice).flatten() == text,
{
    lemma_slices_rebuild_text(text, 0);
}

/// The same of characters: the tokens of valid text end on a character
/// boundary, and the characters of the tokens' texts, put together in their
/// order, are the characters of the text that the tokens cover.
pub proof fn lemma_slices_rebuild_chars(text: Seq<u8>, at: int)
    requires
        valid_utf8(text),
        0 <= at <= text.len(),
        is_char_boundary(text, at),
    ensures
        at <= stop_from(text, at) <= text.len(),
        is_char_boundary(text, stop_from(text, at)),
        tokens_from(text, at).map_values(|token: TokenView| decode_utf8(token.slice)).flatten()
            == decode_utf8(text.subrange(at, stop_from(text, at))),
    decreases text.len() - at,
{
    let chars_of = |token: TokenView| decode_utf8(token.slice);
    let pieces = tokens_from(text, at).map_values(chars_of);
    let stop = stop_from(text, at);
    if at < text.len() && token_at(text, at) is Some {
        let (kind, len) = token_at(text, at).unwrap();
        let first = token_view(text, at, kind, len);
        let rest = tokens_from(text, at + len);
        lemma_token_ends_on_boundary(text, at);
        lemma_slices_rebuild_chars(text, at + len);
        assert(pieces.drop_first() =~= rest.map_values(chars_of));
        let covered = text.subrange(at, stop);
        lemma_boundary_in_span(text, at, at + len, stop);
        decode_utf8_split(covered, len as int);
        assert(covered.subrange(0, len as int) =~= first.slice);
        assert(covered.subrange(len as int, covered.len() as int) =~= text.subrange(
            at + len,
            stop,
        ));
    }
}

/// Where every offset of a document is covered by a token, the characters of
/// the tokens' texts, put together in their order, are the document's.
pub proof fn lemma_slices_rebuild_string(chars: Seq<char>)
    requires
        stop_from(encode_utf8(chars), 0) == encode_utf8(chars).len(),
    ensures
        tokens_from(encode_utf8(chars), 0).map_values(
            |token: TokenView| decode_utf8(token.slice),
        ).flatten() == chars,
{
    let text = encode_utf8(chars);
    encode_utf8_valid_utf8(chars);
    encode_utf8_decode_utf8(chars);
    lemma_slices_rebuild_chars(text, 0);
    assert(text.subrange(0, text.len() as int) =~= text);
}

} // verus!
