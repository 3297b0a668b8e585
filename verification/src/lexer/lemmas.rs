//! Lemmas on the lexical rules.

use vstd::prelude::*;
use vstd::utf8::*;

use crate::lexer::kind::TokenKind;
use crate::lexer::measure::{blank_run, opens, rule_len, run_len, ByteClass};
use crate::lexer::rules::{
    accepts, is_blank, is_lower, is_token, is_upper, is_word, spells, takes, token_at,
};
use crate::text::{
    lemma_ascii_boundary, lemma_ascii_span, lemma_ascii_step, lemma_boundary_in_span,
    lemma_char_step, scalar_at, width_at,
};

verus! {

/// Whether `kind` wins at `at` by the measures: its rule accepts some text
/// there, no rule accepts a longer one, and if a keyword's rule accepts one
/// as long, `kind` is a keyword.
pub open spec fn wins(text: Seq<u8>, at: int, kind: TokenKind) -> bool {
    let len = rule_len(kind, text, at);
    &&& len > 0
    &&& forall|other: TokenKind| #[trigger] rule_len(other, text, at) <= len
    &&& forall|other: TokenKind|
        other.is_keyword() && #[trigger] rule_len(other, text, at) == len ==> kind.is_keyword()
}

/// What a run is: its bytes belong to the class, and it ends where the text
/// does or before a byte that does not belong.
pub proof fn lemma_run(text: Seq<u8>, at: int, class: ByteClass)
    requires
        0 <= at <= text.len(),
    ensures
        at + run_len(text, at, class) <= text.len(),
        forall|i: int| at <= i < at + run_len(text, at, class) ==> class.has(#[trigger] text[i]),
        at + run_len(text, at, class) < text.len() ==> !class.has(
            text[at + run_len(text, at, class)],
        ),
    decreases text.len() - at,
{
    if at < text.len() && class.has(text[at]) {
        lemma_run(text, at + 1, class);
    }
}

/// Bytes of the class that stand one after another from `at` on are part of
/// the run.
pub proof fn lemma_run_covers(text: Seq<u8>, at: int, class: ByteClass, count: int)
    requires
        0 <= at,
        0 <= count,
        at + count <= text.len(),
        forall|i: int| at <= i < at + count ==> class.has(#[trigger] text[i]),
    ensures
        run_len(text, at, class) >= count,
    decreases count,
{
    if count > 0 {
        lemma_run_covers(text, at + 1, class, count - 1);
    }
}

/// The number of bytes of the blank character that the bytes at `at` encode,
/// or 0 if they encode none. These are the UTF-8 forms of the code points of
/// [`is_blank`].
pub open spec fn blank_bytes(text: Seq<u8>, at: int) -> int {
    let b0 = text[at];
    let b1 = text[at + 1];
    let b2 = text[at + 2];
    if b0 == 0x09 || 0x0B <= b0 <= 0x0D || b0 == 0x20 {
        1
    } else if b0 == 0xC2 && (b1 == 0x85 || b1 == 0xA0) {
        2
    } else if b0 == 0xE1 && b1 == 0x9A && b2 == 0x80 {
        3
    } else if b0 == 0xE2 && b1 == 0x80 && (0x80 <= b2 <= 0x8A || 0xA8 <= b2 <= 0xA9 || b2
        == 0xAF) {
        3
    } else if b0 == 0xE2 && b1 == 0x81 && b2 == 0x9F {
        3
    } else if b0 == 0xE3 && b1 == 0x80 && b2 == 0x80 {
        3
    } else {
        0
    }
}

/// Which characters of one byte are blank.
pub proof fn lemma_blank_one(b0: u8)
    by (bit_vector)
    requires
        b0 <= 0x7F,
    ensures
        is_blank(codepoint_width_1(b0)) <==> (b0 == 0x09 || 0x0B <= b0 <= 0x0D || b0 == 0x20),
{
}

/// Which characters of two bytes are blank.
pub proof fn lemma_blank_two(b0: u8, b1: u8)
    by (bit_vector)
    requires
        0xC0 <= b0 <= 0xDF,
        0x80 <= b1 <= 0xBF,
        0x80 <= codepoint_width_2(b0, b1),
    ensures
        is_blank(codepoint_width_2(b0, b1)) <==> (b0 == 0xC2 && (b1 == 0x85 || b1 == 0xA0)),
{
}

/// Which characters of three bytes are blank.
pub proof fn lemma_blank_three(b0: u8, b1: u8, b2: u8)
    by (bit_vector)
    requires
        0xE0 <= b0 <= 0xEF,
        0x80 <= b1 <= 0xBF,
        0x80 <= b2 <= 0xBF,
        0x800 <= codepoint_width_3(b0, b1, b2),
    ensures
        is_blank(codepoint_width_3(b0, b1, b2)) <==> ((b0 == 0xE1 && b1 == 0x9A && b2 == 0x80) || (
        b0 == 0xE2 && b1 == 0x80 && (0x80 <= b2 <= 0x8A || 0xA8 <= b2 <= 0xA9 || b2 == 0xAF)) || (b0
            == 0xE2 && b1 == 0x81 && b2 == 0x9F) || (b0 == 0xE3 && b1 == 0x80 && b2 == 0x80)),
{
}

/// On a character boundary of valid text, the bytes are those of a blank
/// character exactly when the character there is blank.
pub proof fn lemma_blank_bytes(text: Seq<u8>, at: int)
    requires
        valid_utf8(text),
        0 <= at < text.len(),
        is_char_boundary(text, at),
    ensures
        is_blank(scalar_at(text, at)) ==> blank_bytes(text, at) == width_at(text, at),
        !is_blank(scalar_at(text, at)) ==> blank_bytes(text, at) == 0,
        at + blank_bytes(text, at) <= text.len(),
{
    lemma_char_step(text, at);
    let rest = text.subrange(at, text.len() as int);
    let b0 = rest[0];
    if is_leading_byte_width_1(b0) {
        lemma_blank_one(b0);
    } else if is_leading_byte_width_2(b0) {
        lemma_blank_two(b0, rest[1]);
    } else if is_leading_byte_width_3(b0) {
        lemma_blank_three(b0, rest[1], rest[2]);
    }
}

/// A run of blanks lies inside the text.
pub proof fn lemma_blank_reach(text: Seq<u8>, at: int)
    requires
        0 <= at <= text.len(),
    ensures
        at + blank_run(text, at) <= text.len(),
    decreases text.len() - at,
{
    if blank_run(text, at) > 0 {
        lemma_blank_reach(text, at + width_at(text, at));
    }
}

/// No byte of a run of blanks is a line feed.
pub proof fn lemma_blanks_hold_no_line_feed(text: Seq<u8>, at: int)
    requires
        valid_utf8(text),
        0 <= at <= text.len(),
        is_char_boundary(text, at),
    ensures
        forall|i: int| at <= i < at + blank_run(text, at) ==> #[trigger] text[i] != '\n' as u8,
    decreases text.len() - at,
{
    if blank_run(text, at) > 0 {
        lemma_char_step(text, at);
        lemma_blank_bytes(text, at);
        lemma_blanks_hold_no_line_feed(text, at + width_at(text, at));
    }
}

/// A rule accepts text only where the first byte is one that its kind can
/// begin with.
pub proof fn lemma_opens(text: Seq<u8>, at: int, kind: TokenKind)
    requires
        valid_utf8(text),
        0 <= at < text.len(),
        is_char_boundary(text, at),
    ensures
        rule_len(kind, text, at) > 0 ==> opens(kind, text[at]),
{
    if kind == TokenKind::Space && rule_len(kind, text, at) > 0 {
        lemma_blank_bytes(text, at);
    }
}

/// Where only one kind can begin with the byte at `at`, and its rule accepts
/// text there, it wins.
pub proof fn lemma_sole(text: Seq<u8>, at: int, kind: TokenKind)
    requires
        valid_utf8(text),
        0 <= at < text.len(),
        is_char_boundary(text, at),
        rule_len(kind, text, at) > 0,
        forall|other: TokenKind| #[trigger] opens(other, text[at]) ==> other == kind,
    ensures
        wins(text, at, kind),
{
    assert forall|other: TokenKind| #[trigger] rule_len(other, text, at) > 0 implies other
        == kind by {
        lemma_opens(text, at, other);
    }
}

/// A keyword that the text spells at `at` lies inside the name that starts
/// there.
pub proof fn lemma_keyword_in_name(text: Seq<u8>, at: int, kind: TokenKind)
    requires
        0 <= at < text.len(),
        kind.is_keyword(),
        rule_len(kind, text, at) > 0,
    ensures
        is_lower(text[at]) || is_upper(text[at]),
        rule_len(kind, text, at) <= 1 + run_len(text, at + 1, ByteClass::Word),
{
    let word = kind.spelling();
    assert forall|i: int| at <= i < at + word.len() implies is_word(#[trigger] text[i]) by {}
    lemma_run_covers(text, at + 1, ByteClass::Word, word.len() - 1);
}

/// What a rule accepts lies inside the text.
pub proof fn lemma_rule_reach(text: Seq<u8>, at: int, kind: TokenKind)
    requires
        0 <= at <= text.len(),
    ensures
        at + rule_len(kind, text, at) <= text.len(),
{
    lemma_blank_reach(text, at);
    lemma_run(text, at, ByteClass::Digit);
    if at < text.len() {
        lemma_run(text, at + 1, ByteClass::Word);
    }
}

/// What a rule other than that of `NewLine` accepts holds no line feed.
pub proof fn lemma_rule_holds_no_line_feed(text: Seq<u8>, at: int, kind: TokenKind)
    requires
        valid_utf8(text),
        0 <= at < text.len(),
        is_char_boundary(text, at),
        kind != TokenKind::NewLine,
    ensures
        forall|i: int|
            at <= i < at + rule_len(kind, text, at) ==> #[trigger] text[i] != '\n' as u8,
{
    match kind {
        TokenKind::Space => {
            lemma_blanks_hold_no_line_feed(text, at);
        },
        TokenKind::Identifier | TokenKind::TypeName => {
            lemma_run(text, at + 1, ByteClass::Word);
        },
        TokenKind::IntegerLiteral => {
            lemma_run(text, at, ByteClass::Digit);
        },
        TokenKind::StringLiteral => {
            lemma_run(text, at + 1, ByteClass::Quoted);
        },
        _ => {
            let word = kind.spelling();
            assert forall|i: int| at <= i < at + rule_len(kind, text, at) implies #[trigger] text[i]
                != '\n' as u8 by {
                assert(spells(text[at + (i - at)], word[i - at], kind.is_keyword()));
            }
        },
    }
}

/// After a run of blanks that starts on a character boundary comes a
/// boundary.
pub proof fn lemma_blanks_end_on_boundary(text: Seq<u8>, at: int)
    requires
        valid_utf8(text),
        0 <= at <= text.len(),
        is_char_boundary(text, at),
    ensures
        is_char_boundary(text, at + blank_run(text, at)),
    decreases text.len() - at,
{
    if blank_run(text, at) > 0 {
        lemma_char_step(text, at);
        lemma_blanks_end_on_boundary(text, at + width_at(text, at));
    }
}

/// After what a rule accepts on a character boundary comes a boundary.
pub proof fn lemma_rule_ends_on_boundary(text: Seq<u8>, at: int, kind: TokenKind)
    requires
        valid_utf8(text),
        0 <= at < text.len(),
        is_char_boundary(text, at),
    ensures
        is_char_boundary(text, at + rule_len(kind, text, at)),
{
    let len = rule_len(kind, text, at);
    if len > 0 {
        match kind {
            TokenKind::Space => {
                lemma_blanks_end_on_boundary(text, at);
            },
            TokenKind::Identifier | TokenKind::TypeName => {
                lemma_run(text, at + 1, ByteClass::Word);
                lemma_ascii_span(text, at, at + len);
            },
            TokenKind::IntegerLiteral => {
                lemma_run(text, at, ByteClass::Digit);
                lemma_ascii_span(text, at, at + len);
            },
            TokenKind::StringLiteral => {
                lemma_ascii_boundary(text, at + len - 1);
                lemma_ascii_step(text, at + len - 1);
            },
            _ => {
                let word = kind.spelling();
                assert forall|i: int| at <= i < at + len implies #[trigger] text[i] < 0x80 by {
                    assert(spells(text[at + (i - at)], word[i - at], kind.is_keyword()));
                }
                lemma_ascii_span(text, at, at + len);
            },
        }
    }
}

/// Two bytes encode no code point above U+07FF.
proof fn lemma_scalar_two(b0: u8, b1: u8)
    by (bit_vector)
    ensures
        codepoint_width_2(b0, b1) <= 0x7FF,
{
}

/// Three bytes encode no code point above U+FFFF.
proof fn lemma_scalar_three(b0: u8, b1: u8, b2: u8)
    by (bit_vector)
    ensures
        codepoint_width_3(b0, b1, b2) <= 0xFFFF,
{
}

/// The bytes of one character of valid text decode to that character.
pub proof fn lemma_decode_one(text: Seq<u8>, at: int)
    requires
        valid_utf8(text),
        0 <= at < text.len(),
        is_char_boundary(text, at),
    ensures
        valid_utf8(text.subrange(at, at + width_at(text, at))),
        decode_utf8(text.subrange(at, at + width_at(text, at))) == seq![
            scalar_at(text, at) as char,
        ],
        (scalar_at(text, at) as char) as u32 == scalar_at(text, at),
{
    let width = width_at(text, at);
    let rest = text.subrange(at, text.len() as int);
    lemma_char_step(text, at);
    let one = text.subrange(at, at + width);
    lemma_boundary_in_span(text, at, at, at + width);
    lemma_scalar_two(rest[0], rest[1]);
    lemma_scalar_three(rest[0], rest[1], rest[2]);
    assert(decode_utf8(pop_first_scalar(one)) =~= Seq::<char>::empty());
}

/// A run of blanks is one or more blank characters, if it is not empty.
pub proof fn lemma_blanks_accepted(text: Seq<u8>, at: int)
    requires
        valid_utf8(text),
        0 <= at <= text.len(),
        is_char_boundary(text, at),
    ensures
        blank_run(text, at) > 0 ==> accepts(
            TokenKind::Space,
            text.subrange(at, at + blank_run(text, at)),
        ),
    decreases text.len() - at,
{
    let len = blank_run(text, at);
    if len > 0 {
        let width = width_at(text, at);
        let piece = text.subrange(at, at + len);
        lemma_char_step(text, at);
        lemma_blanks_end_on_boundary(text, at);
        lemma_blanks_accepted(text, at + width);
        lemma_boundary_in_span(text, at, at + width, at + len);
        let tail = piece.subrange(width, piece.len() as int);
        assert(tail =~= text.subrange(at + width, at + len));
        assert forall|i: int| 0 <= i < decode_utf8(piece).len() implies is_blank(
            #[trigger] decode_utf8(piece)[i] as u32,
        ) by {
            if i > 0 {
                assert(decode_utf8(piece)[i] == decode_utf8(tail)[i - 1]);
            }
        }
    }
}

/// One or more blank characters that stand at `at` are part of the run of
/// blanks there.
pub proof fn lemma_blanks_cover(text: Seq<u8>, at: int, len: int)
    requires
        valid_utf8(text),
        0 <= at,
        0 < len <= text.len() - at,
        is_char_boundary(text, at),
        accepts(TokenKind::Space, text.subrange(at, at + len)),
    ensures
        len <= blank_run(text, at),
    decreases len,
{
    let width = width_at(text, at);
    let piece = text.subrange(at, at + len);
    let tail = pop_first_scalar(piece);
    lemma_char_step(text, at);
    lemma_decode_one(text, at);
    assert(decode_utf8(piece)[0] == scalar_at(text, at) as char);
    assert(tail =~= text.subrange(at + width, at + len));
    if len > width {
        assert forall|i: int| 0 <= i < decode_utf8(tail).len() implies is_blank(
            #[trigger] decode_utf8(tail)[i] as u32,
        ) by {
            assert(decode_utf8(piece)[i + 1] == decode_utf8(tail)[i]);
        }
        lemma_blanks_cover(text, at + width, len - width);
    }
}

/// A rule accepts the piece of text whose length `rule_len` gives.
pub proof fn lemma_rule_accepted(text: Seq<u8>, at: int, kind: TokenKind)
    requires
        valid_utf8(text),
        0 <= at <= text.len(),
        is_char_boundary(text, at),
    ensures
        rule_len(kind, text, at) > 0 ==> accepts(
            kind,
            text.subrange(at, at + rule_len(kind, text, at)),
        ),
{
    let len = rule_len(kind, text, at);
    let piece = text.subrange(at, at + len);
    if len > 0 {
        match kind {
            TokenKind::Space => {
                lemma_blanks_accepted(text, at);
            },
            TokenKind::Identifier | TokenKind::TypeName => {
                lemma_run(text, at + 1, ByteClass::Word);
                assert forall|i: int| 1 <= i < piece.len() implies is_word(#[trigger] piece[i]) by {}
            },
            TokenKind::IntegerLiteral => {
                lemma_run(text, at, ByteClass::Digit);
                assert forall|i: int| 0 <= i < piece.len() implies ByteClass::Digit.has(
                    #[trigger] piece[i],
                ) by {}
            },
            TokenKind::StringLiteral => {
                lemma_run(text, at + 1, ByteClass::Quoted);
                assert forall|i: int| 1 <= i < piece.len() - 1 implies ByteClass::Quoted.has(
                    #[trigger] piece[i],
                ) by {}
            },
            _ => {
                let word = kind.spelling();
                assert forall|i: int| 0 <= i < piece.len() implies spells(
                    piece[i],
                    #[trigger] word[i],
                    kind.is_keyword(),
                ) by {}
            },
        }
    }
}

/// A piece of text at `at` that a rule accepts is no longer than `rule_len`
/// gives.
pub proof fn lemma_accepted_is_covered(text: Seq<u8>, at: int, kind: TokenKind, len: int)
    requires
        valid_utf8(text),
        0 <= at,
        0 < len <= text.len() - at,
        is_char_boundary(text, at),
        accepts(kind, text.subrange(at, at + len)),
    ensures
        len <= rule_len(kind, text, at),
{
    let piece = text.subrange(at, at + len);
    match kind {
        TokenKind::Space => {
            lemma_blanks_cover(text, at, len);
        },
        TokenKind::Identifier | TokenKind::TypeName => {
            assert forall|i: int| at + 1 <= i < at + len implies ByteClass::Word.has(
                #[trigger] text[i],
            ) by {
                assert(piece[i - at] == text[i]);
            }
            lemma_run_covers(text, at + 1, ByteClass::Word, len - 1);
        },
        TokenKind::IntegerLiteral => {
            assert forall|i: int| at <= i < at + len implies ByteClass::Digit.has(
                #[trigger] text[i],
            ) by {
                assert(piece[i - at] == text[i]);
            }
            lemma_run_covers(text, at, ByteClass::Digit, len);
        },
        TokenKind::StringLiteral => {
            assert forall|i: int| at + 1 <= i < at + len - 1 implies ByteClass::Quoted.has(
                #[trigger] text[i],
            ) by {
                assert(piece[i - at] == text[i]);
            }
            lemma_run(text, at + 1, ByteClass::Quoted);
        },
        _ => {
            let word = kind.spelling();
            assert forall|i: int| 0 <= i < word.len() implies spells(
                text[at + i],
                #[trigger] word[i],
                kind.is_keyword(),
            ) by {}
        },
    }
}

/// At most one kind wins at an offset.
pub proof fn lemma_one_winner(text: Seq<u8>, at: int, one: TokenKind, other: TokenKind)
    requires
        valid_utf8(text),
        0 <= at < text.len(),
        is_char_boundary(text, at),
        wins(text, at, one),
        wins(text, at, other),
    ensures
        one == other,
{
    lemma_opens(text, at, one);
    lemma_opens(text, at, other);
}

/// The kind that wins by the measures is the kind of the token, and the
/// measure of its rule is the token's length.
pub proof fn lemma_winner_is_token(text: Seq<u8>, at: int, kind: TokenKind)
    requires
        valid_utf8(text),
        0 <= at < text.len(),
        is_char_boundary(text, at),
        wins(text, at, kind),
    ensures
        is_token(text, at, kind, rule_len(kind, text, at)),
        token_at(text, at) == Some((kind, rule_len(kind, text, at))),
{
    let len = rule_len(kind, text, at);
    lemma_rule_reach(text, at, kind);
    lemma_rule_accepted(text, at, kind);
    assert forall|other: TokenKind, more: nat| #[trigger]
        takes(text, at, other, more) implies more <= rule_len(other, text, at) by {
        lemma_accepted_is_covered(text, at, other, more as int);
    }
    assert(is_token(text, at, kind, len));
    let (chosen, taken) = choose|chosen: TokenKind, taken: nat| is_token(text, at, chosen, taken);
    lemma_one_winner(text, at, kind, chosen);
}

/// The kind of a token wins by the measures, and the token's length is the
/// measure of its rule.
pub proof fn lemma_token_is_winner(text: Seq<u8>, at: int, kind: TokenKind, len: nat)
    requires
        valid_utf8(text),
        0 <= at < text.len(),
        is_char_boundary(text, at),
        is_token(text, at, kind, len),
    ensures
        wins(text, at, kind),
        len == rule_len(kind, text, at),
{
    lemma_accepted_is_covered(text, at, kind, len as int);
    assert forall|other: TokenKind| rule_len(other, text, at) > 0 implies #[trigger] takes(
        text,
        at,
        other,
        rule_len(other, text, at),
    ) by {
        lemma_rule_reach(text, at, other);
        lemma_rule_accepted(text, at, other);
    }
    assert forall|other: TokenKind| #[trigger] rule_len(other, text, at) <= len by {
        if rule_len(other, text, at) > 0 {
            assert(takes(text, at, other, rule_len(other, text, at)));
        }
    }
    assert forall|other: TokenKind|
        other.is_keyword() && #[trigger] rule_len(other, text, at) == len implies kind.is_keyword() by {
        assert(takes(text, at, other, rule_len(other, text, at)));
    }
}

/// Where no kind wins by the measures, there is no token.
pub proof fn lemma_no_winner_no_token(text: Seq<u8>, at: int)
    requires
        valid_utf8(text),
        0 <= at < text.len(),
        is_char_boundary(text, at),
        forall|kind: TokenKind| !wins(text, at, kind),
    ensures
        token_at(text, at) is None,
{
    if exists|kind: TokenKind, len: nat| is_token(text, at, kind, len) {
        let (kind, len) = choose|kind: TokenKind, len: nat| is_token(text, at, kind, len);
        lemma_token_is_winner(text, at, kind, len);
    }
}

} // verus!
