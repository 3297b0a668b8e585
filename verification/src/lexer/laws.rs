//! What holds of the token at an offset.
//!
//! [`token_at`] says which token stands at an offset by comparing what all
//! the rules accept there. The laws of this module say the same from the
//! scanner's side: at most one token stands at an offset, the byte at the
//! offset tells its kind, and a measure tells its length.
//!
//! Each law speaks of an offset inside valid UTF-8 text that is a character
//! boundary, unless it says otherwise. The offsets that a tokenizer reaches
//! are such ([`Tokenizer::in_text`](crate::lexer::Tokenizer::in_text)), so
//! before a call of `next_token` the law for the byte at the offset tells
//! what the call returns. Where the document is a string literal of ASCII
//! characters, its bytes are known once the literal is revealed and
//! `vstd::utf8::is_ascii_chars_encode_utf8` is called on its view.

use vstd::prelude::*;
use vstd::utf8::*;

use crate::lexer::kind::TokenKind;
use crate::lexer::lemmas::{
    lemma_accepted_is_covered, lemma_blank_bytes, lemma_keyword_in_name, lemma_no_winner_no_token,
    lemma_one_winner, lemma_opens, lemma_rule_accepted, lemma_rule_ends_on_boundary,
    lemma_rule_holds_no_line_feed, lemma_rule_reach, lemma_run, lemma_sole, lemma_token_is_winner,
    lemma_winner_is_token, wins,
};
use crate::lexer::measure::{
    blank_run, fixed_len, opens, rule_len, run_len, string_len, ByteClass,
};
use crate::lexer::rules::{
    accepts, is_blank, is_digit, is_lower, is_token, is_upper, is_word, token_at,
};
use crate::text::scalar_at;

verus! {

/// What [`rule_len`] gives is the length of the longest piece of text at an
/// offset that the rule accepts: the rule accepts a piece of that length, if
/// it is not 0, and no longer one.
pub proof fn lemma_rule_len_is_longest(text: Seq<u8>, at: int, kind: TokenKind)
    requires
        valid_utf8(text),
        0 <= at <= text.len(),
        is_char_boundary(text, at),
    ensures
        at + rule_len(kind, text, at) <= text.len(),
        rule_len(kind, text, at) > 0 ==> accepts(
            kind,
            text.subrange(at, at + rule_len(kind, text, at)),
        ),
        forall|len: int|
            0 < len <= text.len() - at && accepts(kind, #[trigger] text.subrange(at, at + len))
                ==> len <= rule_len(kind, text, at),
{
    lemma_rule_reach(text, at, kind);
    lemma_rule_accepted(text, at, kind);
    assert forall|len: int|
        0 < len <= text.len() - at && accepts(
            kind,
            #[trigger] text.subrange(at, at + len),
        ) implies len <= rule_len(kind, text, at) by {
        lemma_accepted_is_covered(text, at, kind, len);
    }
}

/// At most one token stands at an offset.
pub proof fn lemma_one_token(
    text: Seq<u8>,
    at: int,
    kind: TokenKind,
    len: nat,
    other: TokenKind,
    more: nat,
)
    requires
        valid_utf8(text),
        0 <= at < text.len(),
        is_char_boundary(text, at),
        is_token(text, at, kind, len),
        is_token(text, at, other, more),
    ensures
        kind == other,
        len == more,
{
    lemma_token_is_winner(text, at, kind, len);
    lemma_token_is_winner(text, at, other, more);
    lemma_one_winner(text, at, kind, other);
}

/// What [`token_at`] gives is the token at the offset, and its length is the
/// measure of its rule.
pub proof fn lemma_token_at(text: Seq<u8>, at: int)
    requires
        valid_utf8(text),
        0 <= at < text.len(),
        is_char_boundary(text, at),
    ensures
        forall|kind: TokenKind, len: nat| #[trigger]
            is_token(text, at, kind, len) <==> token_at(text, at) == Some((kind, len)),
        token_at(text, at) matches Some((kind, len)) ==> len == rule_len(kind, text, at),
{
    assert forall|kind: TokenKind, len: nat| #[trigger]
        is_token(text, at, kind, len) implies token_at(text, at) == Some((kind, len)) by {
        lemma_token_is_winner(text, at, kind, len);
        lemma_winner_is_token(text, at, kind);
    }
    if let Some((kind, len)) = token_at(text, at) {
        lemma_token_is_winner(text, at, kind, len);
    }
}

/// A token is not empty and lies inside the text, whatever the text and the
/// offset are.
pub proof fn lemma_token_fits(text: Seq<u8>, at: int)
    ensures
        token_at(text, at) matches Some((kind, len)) ==> 0 <= at && 0 < len && at + len
            <= text.len(),
{
}

/// A token ends on a character boundary.
pub proof fn lemma_token_ends_on_boundary(text: Seq<u8>, at: int)
    requires
        valid_utf8(text),
        0 <= at < text.len(),
        is_char_boundary(text, at),
    ensures
        token_at(text, at) matches Some((kind, len)) ==> is_char_boundary(text, at + len),
{
    if let Some((kind, len)) = token_at(text, at) {
        lemma_token_is_winner(text, at, kind, len);
        lemma_rule_ends_on_boundary(text, at, kind);
    }
}

/// A token holds a line feed only if it is the token `NewLine`, and then it is
/// nothing but the line feed.
pub proof fn lemma_token_and_line_feed(text: Seq<u8>, at: int)
    requires
        valid_utf8(text),
        0 <= at < text.len(),
        is_char_boundary(text, at),
    ensures
        token_at(text, at) matches Some((kind, len)) ==> if kind == TokenKind::NewLine {
            len == 1 && text[at] == '\n' as u8
        } else {
            forall|i: int| at <= i < at + len ==> #[trigger] text[i] != '\n' as u8
        },
{
    if let Some((kind, len)) = token_at(text, at) {
        lemma_token_is_winner(text, at, kind, len);
        if kind == TokenKind::NewLine {
            lemma_opens(text, at, kind);
        } else {
            lemma_rule_holds_no_line_feed(text, at, kind);
        }
    }
}

/// Where the line feed stands, or a symbol of one byte other than `<`, the
/// token is that kind's.
pub proof fn lemma_symbol_token(text: Seq<u8>, at: int, kind: TokenKind)
    requires
        valid_utf8(text),
        0 <= at < text.len(),
        is_char_boundary(text, at),
        kind.spelling().len() == 1,
        kind != TokenKind::LessThan,
        text[at] == kind.spelling()[0] as u8,
    ensures
        token_at(text, at) == Some((kind, 1nat)),
{
    lemma_sole(text, at, kind);
    lemma_winner_is_token(text, at, kind);
}

/// Where `<` stands, the token is `<=` or `<-` if the next byte makes it one
/// of them, each one token of two bytes, and otherwise it is `<` alone.
pub proof fn lemma_less_than_token(text: Seq<u8>, at: int)
    requires
        valid_utf8(text),
        0 <= at < text.len(),
        is_char_boundary(text, at),
        text[at] == '<' as u8,
    ensures
        token_at(text, at) == Some(
            if at + 1 < text.len() && text[at + 1] == '=' as u8 {
                (TokenKind::LessThanOrEqual, 2nat)
            } else if at + 1 < text.len() && text[at + 1] == '-' as u8 {
                (TokenKind::Assign, 2nat)
            } else {
                (TokenKind::LessThan, 1nat)
            },
        ),
{
    let kind = if at + 1 < text.len() && text[at + 1] == '=' as u8 {
        TokenKind::LessThanOrEqual
    } else if at + 1 < text.len() && text[at + 1] == '-' as u8 {
        TokenKind::Assign
    } else {
        TokenKind::LessThan
    };
    assert forall|other: TokenKind| #[trigger]
        rule_len(other, text, at) > 0 implies !other.is_keyword() && rule_len(other, text, at)
        <= kind.spelling().len() by {
        lemma_opens(text, at, other);
    }
    lemma_winner_is_token(text, at, kind);
}

/// Where a blank character stands, the token is `Space` and takes the whole
/// run of blanks.
pub proof fn lemma_space_token(text: Seq<u8>, at: int)
    requires
        valid_utf8(text),
        0 <= at < text.len(),
        is_char_boundary(text, at),
        is_blank(scalar_at(text, at)),
    ensures
        token_at(text, at) == Some((TokenKind::Space, blank_run(text, at))),
{
    lemma_blank_bytes(text, at);
    lemma_winner_is_token(text, at, TokenKind::Space);
}

/// Where a digit stands, the token is `IntegerLiteral` and takes the whole
/// run of digits.
pub proof fn lemma_number_token(text: Seq<u8>, at: int)
    requires
        valid_utf8(text),
        0 <= at < text.len(),
        is_char_boundary(text, at),
        is_digit(text[at]),
    ensures
        token_at(text, at) == Some(
            (TokenKind::IntegerLiteral, run_len(text, at, ByteClass::Digit)),
        ),
{
    lemma_sole(text, at, TokenKind::IntegerLiteral);
    lemma_winner_is_token(text, at, TokenKind::IntegerLiteral);
}

/// Where a quote stands, the token is `StringLiteral` up to the next quote
/// if there is one on the line, and there is no token otherwise.
pub proof fn lemma_string_token(text: Seq<u8>, at: int)
    requires
        valid_utf8(text),
        0 <= at < text.len(),
        is_char_boundary(text, at),
        text[at] == '"' as u8,
    ensures
        token_at(text, at) == if string_len(text, at) > 0 {
            Some((TokenKind::StringLiteral, string_len(text, at)))
        } else {
            None
        },
{
    if string_len(text, at) > 0 {
        lemma_sole(text, at, TokenKind::StringLiteral);
        lemma_winner_is_token(text, at, TokenKind::StringLiteral);
    } else {
        assert forall|other: TokenKind| !wins(text, at, other) by {
            lemma_opens(text, at, other);
        }
        lemma_no_winner_no_token(text, at);
    }
}

/// Where a letter stands, the token takes the whole word: the letter and
/// every word byte that follows. A keyword inside a longer word is no token
/// of its own.
pub proof fn lemma_word_is_one_token(text: Seq<u8>, at: int)
    requires
        valid_utf8(text),
        0 <= at < text.len(),
        is_char_boundary(text, at),
        is_lower(text[at]) || is_upper(text[at]),
    ensures
        token_at(text, at) matches Some((kind, len)) && len == 1 + run_len(
            text,
            at + 1,
            ByteClass::Word,
        ),
{
    let len = 1 + run_len(text, at + 1, ByteClass::Word);
    lemma_word_is_longest(text, at);
    if exists|keyword: TokenKind| keyword.is_keyword() && rule_len(keyword, text, at) == len {
        let keyword = choose|keyword: TokenKind|
            keyword.is_keyword() && rule_len(keyword, text, at) == len;
        lemma_winner_is_token(text, at, keyword);
    } else if is_lower(text[at]) {
        lemma_winner_is_token(text, at, TokenKind::Identifier);
    } else {
        lemma_winner_is_token(text, at, TokenKind::TypeName);
    }
}

/// Where a letter stands, no rule accepts more than the word.
proof fn lemma_word_is_longest(text: Seq<u8>, at: int)
    requires
        valid_utf8(text),
        0 <= at < text.len(),
        is_char_boundary(text, at),
        is_lower(text[at]) || is_upper(text[at]),
    ensures
        forall|other: TokenKind| #[trigger]
            rule_len(other, text, at) <= 1 + run_len(text, at + 1, ByteClass::Word),
{
    assert forall|other: TokenKind| #[trigger] rule_len(other, text, at) <= 1 + run_len(
        text,
        at + 1,
        ByteClass::Word,
    ) by {
        lemma_opens(text, at, other);
        if other.is_keyword() && rule_len(other, text, at) > 0 {
            lemma_keyword_in_name(text, at, other);
        }
    }
}

/// A keyword is read in whatever case its letters are written: where the
/// text spells it and no word byte follows, the token is the keyword.
pub proof fn lemma_keyword_token(text: Seq<u8>, at: int, kind: TokenKind)
    requires
        valid_utf8(text),
        0 <= at < text.len(),
        is_char_boundary(text, at),
        kind.is_keyword(),
        fixed_len(text, at, kind.spelling(), true) > 0,
        at + kind.spelling().len() == text.len() || !is_word(text[at + kind.spelling().len()]),
    ensures
        token_at(text, at) == Some((kind, kind.spelling().len())),
{
    lemma_run(text, at + 1, ByteClass::Word);
    lemma_word_is_longest(text, at);
    lemma_winner_is_token(text, at, kind);
}

/// Where a letter stands and no keyword's rule accepts the whole word that
/// starts with it, the token is a name: an `Identifier` if the letter is
/// lower case and a `TypeName` if it is upper case.
pub proof fn lemma_name_token(text: Seq<u8>, at: int)
    requires
        valid_utf8(text),
        0 <= at < text.len(),
        is_char_boundary(text, at),
        is_lower(text[at]) || is_upper(text[at]),
        forall|keyword: TokenKind|
            keyword.is_keyword() ==> #[trigger] rule_len(keyword, text, at) != 1 + run_len(
                text,
                at + 1,
                ByteClass::Word,
            ),
    ensures
        token_at(text, at) == Some(
            (
                if is_lower(text[at]) {
                    TokenKind::Identifier
                } else {
                    TokenKind::TypeName
                },
                1 + run_len(text, at + 1, ByteClass::Word),
            ),
        ),
{
    lemma_word_is_longest(text, at);
    if is_lower(text[at]) {
        lemma_winner_is_token(text, at, TokenKind::Identifier);
    } else {
        lemma_winner_is_token(text, at, TokenKind::TypeName);
    }
}

/// Where a byte stands with which no kind of token can begin, there is no
/// token; nor is there where only `Space` can begin with the byte and the
/// character that stands there is not blank.
pub proof fn lemma_stray_character(text: Seq<u8>, at: int)
    requires
        valid_utf8(text),
        0 <= at < text.len(),
        is_char_boundary(text, at),
        forall|kind: TokenKind| #[trigger]
            opens(kind, text[at]) ==> kind == TokenKind::Space && !is_blank(scalar_at(text, at)),
    ensures
        token_at(text, at) is None,
{
    assert forall|other: TokenKind| !wins(text, at, other) by {
        lemma_opens(text, at, other);
    }
    lemma_no_winner_no_token(text, at);
}

/// A quote with no second quote after it on its line starts no token.
pub proof fn lemma_unterminated_string(text: Seq<u8>, at: int)
    requires
        valid_utf8(text),
        0 <= at < text.len(),
        is_char_boundary(text, at),
        text[at] == '"' as u8,
        forall|close: int|
            at < close < text.len() && #[trigger] text[close] == '"' as u8 ==> exists|feed: int|
                at < feed < close && #[trigger] text[feed] == '\n' as u8,
    ensures
        token_at(text, at) is None,
{
    let close = at + 1 + run_len(text, at + 1, ByteClass::Quoted);
    lemma_run(text, at + 1, ByteClass::Quoted);
    if close < text.len() && text[close] == '"' as u8 {
        let feed = choose|feed: int| at < feed < close && #[trigger] text[feed] == '\n' as u8;
        assert(!ByteClass::Quoted.has(text[feed]));
    }
    lemma_string_token(text, at);
}

} // verus!
