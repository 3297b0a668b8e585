//! The lexical rules, and which token stands at an offset.
//!
//! The text is a sequence of UTF-8 bytes. Each kind of token has one rule,
//! and [`accepts`] says which pieces of text a rule accepts. The token at an
//! offset ([`token_at`]) is the longest piece of text there that any rule
//! accepts, with the kind of that rule. Where a keyword's rule and the rule
//! of a name accept the same piece, the token is the keyword.

use vstd::prelude::*;
use vstd::utf8::*;

use crate::lexer::kind::TokenKind;

verus! {

/// `a` to `z`.
pub open spec fn is_lower(b: u8) -> bool {
    'a' as u8 <= b <= 'z' as u8
}

/// `A` to `Z`.
pub open spec fn is_upper(b: u8) -> bool {
    'A' as u8 <= b <= 'Z' as u8
}

/// `0` to `9`.
pub open spec fn is_digit(b: u8) -> bool {
    '0' as u8 <= b <= '9' as u8
}

/// A byte that may follow the first letter of a name: a letter, a digit or
/// the underscore.
pub open spec fn is_word(b: u8) -> bool {
    is_lower(b) || is_upper(b) || is_digit(b) || b == '_' as u8
}

/// The lower-case form of an upper-case ASCII letter; any other byte as it
/// is.
pub open spec fn lower_of(b: u8) -> u8 {
    if is_upper(b) {
        (b + 0x20) as u8
    } else {
        b
    }
}

/// Whether the code point is white space as Unicode defines it
/// (`White_Space`) and is not the line feed.
pub open spec fn is_blank(c: u32) -> bool {
    ||| 0x09 <= c <= 0x0D && c != 0x0A
    ||| c == 0x20
    ||| c == 0x85
    ||| c == 0xA0
    ||| c == 0x1680
    ||| 0x2000 <= c <= 0x200A
    ||| c == 0x2028
    ||| c == 0x2029
    ||| c == 0x202F
    ||| c == 0x205F
    ||| c == 0x3000
}

/// Whether byte `b` is the ASCII character `c`; with `fold`, whether it is
/// `c` in either case, for a lower-case `c`.
pub open spec fn spells(b: u8, c: char, fold: bool) -> bool {
    if fold {
        lower_of(b) == c as u8
    } else {
        b == c as u8
    }
}

/// Whether the rule of `kind` accepts `piece`, taken as a whole.
///
/// A fixed kind accepts its spelling, a keyword in any mix of cases. `Space`
/// accepts one or more blank characters, a name a first letter of its case
/// and any word bytes after it, `IntegerLiteral` one or more digits, and
/// `StringLiteral` two quotes with neither a quote nor a line feed between
/// them.
pub open spec fn accepts(kind: TokenKind, piece: Seq<u8>) -> bool {
    &&& piece.len() > 0
    &&& match kind {
        TokenKind::Space => valid_utf8(piece) && forall|i: int|
            0 <= i < decode_utf8(piece).len() ==> is_blank(#[trigger] decode_utf8(piece)[i] as u32),
        TokenKind::Identifier => is_lower(piece[0]) && forall|i: int|
            1 <= i < piece.len() ==> is_word(#[trigger] piece[i]),
        TokenKind::TypeName => is_upper(piece[0]) && forall|i: int|
            1 <= i < piece.len() ==> is_word(#[trigger] piece[i]),
        TokenKind::IntegerLiteral => forall|i: int|
            0 <= i < piece.len() ==> is_digit(#[trigger] piece[i]),
        TokenKind::StringLiteral => piece.len() >= 2 && piece[0] == '"' as u8 && piece[piece.len()
            - 1] == '"' as u8 && forall|i: int|
            1 <= i < piece.len() - 1 ==> #[trigger] piece[i] != '"' as u8 && piece[i] != '\n' as u8,
        _ => piece.len() == kind.spelling().len() && forall|i: int|
            0 <= i < piece.len() ==> spells(piece[i], #[trigger] kind.spelling()[i], kind.is_keyword()),
    }
}

/// Whether the rule of `kind` accepts the `len` bytes of `text` from `at` on.
pub open spec fn takes(text: Seq<u8>, at: int, kind: TokenKind, len: nat) -> bool {
    0 <= at && 0 < len <= text.len() - at && accepts(kind, text.subrange(at, at + len))
}

/// Whether the token at `at` is of `kind` and `len` bytes long: the rule of
/// `kind` accepts the `len` bytes there, no rule accepts more, and if a
/// keyword's rule accepts as many, `kind` is a keyword.
pub open spec fn is_token(text: Seq<u8>, at: int, kind: TokenKind, len: nat) -> bool {
    &&& takes(text, at, kind, len)
    &&& forall|other: TokenKind, more: nat| #[trigger] takes(text, at, other, more) ==> more <= len
    &&& forall|other: TokenKind|
        other.is_keyword() && #[trigger] takes(text, at, other, len) ==> kind.is_keyword()
}

/// The kind and the length of the token at `at`, or `None` if no rule
/// accepts any text there.
pub open spec fn token_at(text: Seq<u8>, at: int) -> Option<(TokenKind, nat)> {
    if exists|kind: TokenKind, len: nat| is_token(text, at, kind, len) {
        Some(choose|kind: TokenKind, len: nat| is_token(text, at, kind, len))
    } else {
        None
    }
}

} // verus!
