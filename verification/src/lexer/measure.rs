//! Measures: how long the text is that a rule accepts at an offset.
//!
//! [`rule_len`] gives, for a kind and an offset, the length of the longest
//! piece of text there that the kind's rule accepts. It is what a scanner
//! computes, and the laws on the token at an offset are stated with it.

use vstd::prelude::*;

use crate::lexer::kind::TokenKind;
use crate::lexer::rules::{is_blank, is_digit, is_lower, is_upper, is_word, spells};
use crate::text::{scalar_at, width_at};

verus! {

/// The number of bytes from `at` on that make up blank characters, one
/// after another.
pub open spec fn blank_run(text: Seq<u8>, at: int) -> nat
    decreases text.len() - at,
{
    if 0 <= at && at + width_at(text, at) <= text.len() && is_blank(scalar_at(text, at)) {
        (width_at(text, at) + blank_run(text, at + width_at(text, at))) as nat
    } else {
        0
    }
}

/// A set of bytes of which a rule takes a run.
pub enum ByteClass {
    /// The bytes of [`is_word`].
    Word,
    /// The bytes of [`is_digit`].
    Digit,
    /// What may stand between the quotes of a string literal: any byte but
    /// the quote and the line feed.
    Quoted,
}

impl ByteClass {
    /// Whether the byte belongs to the class.
    pub open spec fn has(self, b: u8) -> bool {
        match self {
            ByteClass::Word => is_word(b),
            ByteClass::Digit => is_digit(b),
            ByteClass::Quoted => b != '"' as u8 && b != '\n' as u8,
        }
    }
}

/// The number of bytes from `at` on that belong to `class`, one after
/// another.
pub open spec fn run_len(text: Seq<u8>, at: int, class: ByteClass) -> nat
    decreases text.len() - at,
{
    if 0 <= at < text.len() && class.has(text[at]) {
        1 + run_len(text, at + 1, class)
    } else {
        0
    }
}

/// The length of `word` if the text spells it at `at`, else 0.
pub open spec fn fixed_len(text: Seq<u8>, at: int, word: Seq<char>, fold: bool) -> nat {
    if 0 <= at && at + word.len() <= text.len() && forall|i: int|
        0 <= i < word.len() ==> spells(text[at + i], #[trigger] word[i], fold) {
        word.len()
    } else {
        0
    }
}

/// The length of the name at `at`: a first letter, upper case if `upper` and
/// lower case if not, and the word bytes that follow it. 0 if no such letter
/// stands at `at`.
pub open spec fn name_len(text: Seq<u8>, at: int, upper: bool) -> nat {
    if 0 <= at < text.len() && (if upper {
        is_upper(text[at])
    } else {
        is_lower(text[at])
    }) {
        1 + run_len(text, at + 1, ByteClass::Word)
    } else {
        0
    }
}

/// The length of the string literal at `at`: a quote, a run of bytes that
/// are neither a quote nor a line feed, and a quote. 0 if no quote stands at
/// `at`, or if the line or the text ends before the closing quote.
pub open spec fn string_len(text: Seq<u8>, at: int) -> nat {
    let close = at + 1 + run_len(text, at + 1, ByteClass::Quoted);
    if 0 <= at < text.len() && text[at] == '"' as u8 && close < text.len() && text[close]
        == '"' as u8 {
        (close + 1 - at) as nat
    } else {
        0
    }
}

/// The length of the longest piece of text at `at` that the rule of `kind`
/// accepts, or 0 if it accepts none.
pub open spec fn rule_len(kind: TokenKind, text: Seq<u8>, at: int) -> nat {
    match kind {
        TokenKind::Space => blank_run(text, at),
        TokenKind::Identifier => name_len(text, at, false),
        TokenKind::TypeName => name_len(text, at, true),
        TokenKind::IntegerLiteral => run_len(text, at, ByteClass::Digit),
        TokenKind::StringLiteral => string_len(text, at),
        _ => fixed_len(text, at, kind.spelling(), kind.is_keyword()),
    }
}

/// Whether a token of `kind` can begin with byte `b`.
pub open spec fn opens(kind: TokenKind, b: u8) -> bool {
    match kind {
        TokenKind::Space => b == 0x09 || 0x0B <= b <= 0x0D || b == 0x20 || b == 0xC2 || 0xE1 <= b
            <= 0xE3,
        TokenKind::Identifier => is_lower(b),
        TokenKind::TypeName => is_upper(b),
        TokenKind::IntegerLiteral => is_digit(b),
        TokenKind::StringLiteral => b == '"' as u8,
        _ => spells(b, kind.spelling()[0], kind.is_keyword()),
    }
}

} // verus!
