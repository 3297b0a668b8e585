//! The scanner: the executable side of the lexical rules.

use vstd::prelude::*;
use vstd::utf8::*;

use crate::lexer::kind::TokenKind;
use crate::lexer::laws::{
    lemma_keyword_token, lemma_less_than_token, lemma_name_token, lemma_number_token,
    lemma_space_token, lemma_stray_character, lemma_string_token, lemma_symbol_token,
};
use crate::lexer::lemmas::{blank_bytes, lemma_blank_bytes, lemma_run};
use crate::lexer::measure::{blank_run, rule_len, run_len, ByteClass};
use crate::lexer::rules::{is_blank, is_digit, is_lower, is_upper, lower_of, spells, token_at};
use crate::text::{lemma_char_step, scalar_at, width_at};

verus! {

impl ByteClass {
    /// Tests whether the byte belongs to the class.
    pub(crate) fn holds(&self, b: u8) -> (yes: bool)
        ensures
            yes == self.has(b),
    {
        match self {
            ByteClass::Word => ('a' as u8 <= b && b <= 'z' as u8) || ('A' as u8 <= b && b
                <= 'Z' as u8) || ('0' as u8 <= b && b <= '9' as u8) || b == '_' as u8,
            ByteClass::Digit => '0' as u8 <= b && b <= '9' as u8,
            ByteClass::Quoted => b != '"' as u8 && b != '\n' as u8,
        }
    }
}

/// Measures the run of `class` that starts at `at`.
pub fn scan_run(text: &[u8], at: usize, class: ByteClass) -> (count: usize)
    requires
        at <= text@.len(),
    ensures
        count == run_len(text@, at as int, class),
        at + count <= text@.len(),
{
    let mut end = at;
    while end < text.len() && class.holds(text[end])
        invariant
            at <= end <= text@.len(),
            run_len(text@, at as int, class) == (end - at) + run_len(text@, end as int, class),
        decreases text@.len() - end,
    {
        end += 1;
    }
    end - at
}

/// Measures the blank character at `at`: its number of bytes, or 0 if the
/// character there is not blank.
pub fn blank_width(text: &[u8], at: usize) -> (width: usize)
    requires
        valid_utf8(text@),
        at < text@.len(),
        is_char_boundary(text@, at as int),
    ensures
        width == blank_bytes(text@, at as int),
        is_blank(scalar_at(text@, at as int)) ==> width == width_at(text@, at as int),
        !is_blank(scalar_at(text@, at as int)) ==> width == 0,
        at + width <= text@.len(),
{
    proof {
        lemma_blank_bytes(text@, at as int);
        lemma_char_step(text@, at as int);
    }
    let b0 = text[at];
    if b0 == 0x09 || (0x0B <= b0 && b0 <= 0x0D) || b0 == 0x20 {
        1
    } else if b0 == 0xC2 {
        let b1 = text[at + 1];
        if b1 == 0x85 || b1 == 0xA0 {
            2
        } else {
            0
        }
    } else if b0 == 0xE1 || b0 == 0xE2 || b0 == 0xE3 {
        let b1 = text[at + 1];
        let b2 = text[at + 2];
        if b0 == 0xE1 && b1 == 0x9A && b2 == 0x80 {
            3
        } else if b0 == 0xE2 && b1 == 0x80 && ((0x80 <= b2 && b2 <= 0x8A) || b2 == 0xA8 || b2
            == 0xA9 || b2 == 0xAF) {
            3
        } else if b0 == 0xE2 && b1 == 0x81 && b2 == 0x9F {
            3
        } else if b0 == 0xE3 && b1 == 0x80 && b2 == 0x80 {
            3
        } else {
            0
        }
    } else {
        0
    }
}

/// Measures the run of blank characters that starts at `at`.
pub fn scan_blanks(text: &[u8], at: usize) -> (count: usize)
    requires
        valid_utf8(text@),
        at <= text@.len(),
        is_char_boundary(text@, at as int),
    ensures
        count == blank_run(text@, at as int),
        at + count <= text@.len(),
        is_char_boundary(text@, at + count),
{
    let mut end = at;
    while end < text.len()
        invariant
            valid_utf8(text@),
            at <= end <= text@.len(),
            is_char_boundary(text@, end as int),
            blank_run(text@, at as int) == (end - at) + blank_run(text@, end as int),
        ensures
            at <= end <= text@.len(),
            is_char_boundary(text@, end as int),
            blank_run(text@, at as int) == end - at,
        decreases text@.len() - end,
    {
        let width = blank_width(text, end);
        proof {
            lemma_char_step(text@, end as int);
        }
        if width == 0 {
            break ;
        }
        end += width;
    }
    end - at
}

/// The lower-case form of an upper-case ASCII letter; any other byte as it
/// is.
pub fn to_lower(b: u8) -> (lower: u8)
    ensures
        lower == lower_of(b),
{
    if 'A' as u8 <= b && b <= 'Z' as u8 {
        b + 0x20
    } else {
        b
    }
}

/// Tests whether the text spells `kind` at `at`.
pub fn spelled_at(text: &[u8], at: usize, kind: TokenKind) -> (yes: bool)
    requires
        at <= text@.len(),
        kind.spelling().len() > 0,
    ensures
        yes == (rule_len(kind, text@, at as int) == kind.spelling().len()),
        yes == (rule_len(kind, text@, at as int) > 0),
{
    let word = kind.spelling_str().as_bytes();
    let fold = kind.is_keyword();
    proof {
        is_ascii_chars_encode_utf8(kind.spelling());
    }
    if word.len() > text.len() - at {
        return false;
    }
    let mut i: usize = 0;
    while i < word.len()
        invariant
            i <= word@.len(),
            word@.len() == kind.spelling().len(),
            at + word@.len() <= text@.len() <= usize::MAX,
            fold == kind.is_keyword(),
            forall|j: int| 0 <= j < word@.len() ==> word@[j] == #[trigger] kind.spelling()[j] as u8,
            forall|j: int|
                0 <= j < i ==> spells(text@[at + j], #[trigger] kind.spelling()[j], fold),
        decreases word@.len() - i,
    {
        let b = if fold {
            to_lower(text[at + i])
        } else {
            text[at + i]
        };
        if b != word[i] {
            proof {
                let ghost w = kind.spelling();
                assert(!spells(text@[at + i], w[i as int], fold));
            }
            return false;
        }
        i += 1;
    }
    true
}

/// Tests whether the text at `at` spells the keyword `kind` and the keyword
/// is `len` bytes long.
fn is_keyword_at(text: &[u8], at: usize, len: usize, kind: TokenKind) -> (yes: bool)
    requires
        at <= text@.len(),
        len > 0,
        kind.is_keyword(),
    ensures
        yes == (rule_len(kind, text@, at as int) == len),
{
    proof {
        is_ascii_chars_encode_utf8(kind.spelling());
    }
    kind.spelling_str().len() == len && spelled_at(text, at, kind)
}

/// Looks for the keyword that the `len` bytes at `at` spell.
pub fn keyword_at(text: &[u8], at: usize, len: usize) -> (found: Option<TokenKind>)
    requires
        at <= text@.len(),
        len > 0,
    ensures
        found matches Some(kind) ==> kind.is_keyword() && rule_len(kind, text@, at as int) == len,
        found is None ==> forall|kind: TokenKind|
            kind.is_keyword() ==> #[trigger] rule_len(kind, text@, at as int) != len,
{
    if is_keyword_at(text, at, len, TokenKind::Class) {
        Some(TokenKind::Class)
    } else if is_keyword_at(text, at, len, TokenKind::Inherits) {
        Some(TokenKind::Inherits)
    } else if is_keyword_at(text, at, len, TokenKind::If) {
        Some(TokenKind::If)
    } else if is_keyword_at(text, at, len, TokenKind::Then) {
        Some(TokenKind::Then)
    } else if is_keyword_at(text, at, len, TokenKind::Else) {
        Some(TokenKind::Else)
    } else if is_keyword_at(text, at, len, TokenKind::Fi) {
        Some(TokenKind::Fi)
    } else if is_keyword_at(text, at, len, TokenKind::While) {
        Some(TokenKind::While)
    } else if is_keyword_at(text, at, len, TokenKind::Loop) {
        Some(TokenKind::Loop)
    } else if is_keyword_at(text, at, len, TokenKind::Pool) {
        Some(TokenKind::Pool)
    } else if is_keyword_at(text, at, len, TokenKind::Let) {
        Some(TokenKind::Let)
    } else if is_keyword_at(text, at, len, TokenKind::In) {
        Some(TokenKind::In)
    } else if is_keyword_at(text, at, len, TokenKind::Case) {
        Some(TokenKind::Case)
    } else if is_keyword_at(text, at, len, TokenKind::Of) {
        Some(TokenKind::Of)
    } else if is_keyword_at(text, at, len, TokenKind::Esac) {
        Some(TokenKind::Esac)
    } else if is_keyword_at(text, at, len, TokenKind::New) {
        Some(TokenKind::New)
    } else if is_keyword_at(text, at, len, TokenKind::Isvoid) {
        Some(TokenKind::Isvoid)
    } else if is_keyword_at(text, at, len, TokenKind::Not) {
        Some(TokenKind::Not)
    } else if is_keyword_at(text, at, len, TokenKind::True) {
        Some(TokenKind::True)
    } else if is_keyword_at(text, at, len, TokenKind::False) {
        Some(TokenKind::False)
    } else {
        None
    }
}

/// What a scan at `at` has to find: the token there, or that there is none.
pub open spec fn scans_to(text: Seq<u8>, at: int, found: Option<(TokenKind, usize)>) -> bool {
    match found {
        Some((kind, len)) => token_at(text, at) == Some((kind, len as nat)),
        None => token_at(text, at) is None,
    }
}

/// Scans a keyword or a name, where a letter stands at `at`.
fn scan_word(text: &[u8], at: usize) -> (found: Option<(TokenKind, usize)>)
    requires
        valid_utf8(text@),
        at < text.len(),
        is_char_boundary(text@, at as int),
        is_lower(text@[at as int]) || is_upper(text@[at as int]),
    ensures
        scans_to(text@, at as int, found),
{
    let len = 1 + scan_run(text, at + 1, ByteClass::Word);
    let kind = match keyword_at(text, at, len) {
        Some(keyword) => {
            proof {
                lemma_run(text@, at + 1, ByteClass::Word);
                lemma_keyword_token(text@, at as int, keyword);
            }
            keyword
        },
        None => {
            proof {
                lemma_name_token(text@, at as int);
            }
            if text[at] >= 'a' as u8 {
                TokenKind::Identifier
            } else {
                TokenKind::TypeName
            }
        },
    };
    Some((kind, len))
}

/// Scans an integer literal, where a digit stands at `at`.
fn scan_number(text: &[u8], at: usize) -> (found: Option<(TokenKind, usize)>)
    requires
        valid_utf8(text@),
        at < text.len(),
        is_char_boundary(text@, at as int),
        is_digit(text@[at as int]),
    ensures
        scans_to(text@, at as int, found),
{
    proof {
        lemma_number_token(text@, at as int);
    }
    Some((TokenKind::IntegerLiteral, scan_run(text, at, ByteClass::Digit)))
}

/// Scans a string literal, where a quote stands at `at`.
fn scan_string(text: &[u8], at: usize) -> (found: Option<(TokenKind, usize)>)
    requires
        valid_utf8(text@),
        at < text.len(),
        is_char_boundary(text@, at as int),
        text@[at as int] == '"' as u8,
    ensures
        scans_to(text@, at as int, found),
{
    proof {
        lemma_string_token(text@, at as int);
    }
    let close = at + 1 + scan_run(text, at + 1, ByteClass::Quoted);
    if close < text.len() && text[close] == '"' as u8 {
        Some((TokenKind::StringLiteral, close + 1 - at))
    } else {
        None
    }
}

/// Scans a run of blanks, where a blank stands at `at`.
fn scan_space(text: &[u8], at: usize) -> (found: Option<(TokenKind, usize)>)
    requires
        valid_utf8(text@),
        at < text.len(),
        is_char_boundary(text@, at as int),
        is_blank(scalar_at(text@, at as int)),
    ensures
        scans_to(text@, at as int, found),
{
    proof {
        lemma_space_token(text@, at as int);
    }
    Some((TokenKind::Space, scan_blanks(text, at)))
}

/// Scans a line feed or a symbol, where no letter, digit, quote or blank
/// stands at `at`.
fn scan_symbol(text: &[u8], at: usize) -> (found: Option<(TokenKind, usize)>)
    requires
        valid_utf8(text@),
        at < text.len(),
        is_char_boundary(text@, at as int),
        !is_blank(scalar_at(text@, at as int)),
        !is_lower(text@[at as int]) && !is_upper(text@[at as int]),
        !is_digit(text@[at as int]),
        text@[at as int] != '"' as u8,
    ensures
        scans_to(text@, at as int, found),
{
    let two = at + 1 < text.len();
    let kind = match text[at] as char {
        '\n' => TokenKind::NewLine,
        '(' => TokenKind::OpenParen,
        ')' => TokenKind::CloseParen,
        '*' => TokenKind::Star,
        '+' => TokenKind::Plus,
        '-' => TokenKind::Minus,
        '/' => TokenKind::Slash,
        ':' => TokenKind::Colon,
        ';' => TokenKind::Semicolon,
        '<' => {
            proof {
                lemma_less_than_token(text@, at as int);
            }
            if two && text[at + 1] == '=' as u8 {
                return Some((TokenKind::LessThanOrEqual, 2));
            } else if two && text[at + 1] == '-' as u8 {
                return Some((TokenKind::Assign, 2));
            } else {
                return Some((TokenKind::LessThan, 1));
            }
        },
        '=' => TokenKind::Equal,
        '[' => TokenKind::OpenSquare,
        ']' => TokenKind::CloseSquare,
        '{' => TokenKind::OpenBrace,
        '}' => TokenKind::CloseBrace,
        _ => {
            proof {
                lemma_stray_character(text@, at as int);
            }
            return None;
        },
    };
    proof {
        lemma_symbol_token(text@, at as int, kind);
    }
    Some((kind, 1))
}

/// Scans the token at `at`: finds its kind and its length, or that there is
/// no token.
pub fn scan_token(text: &[u8], at: usize) -> (found: Option<(TokenKind, usize)>)
    requires
        valid_utf8(text@),
        at < text.len(),
        is_char_boundary(text@, at as int),
    ensures
        scans_to(text@, at as int, found),
{
    let b = text[at];
    if ('a' as u8 <= b && b <= 'z' as u8) || ('A' as u8 <= b && b <= 'Z' as u8) {
        scan_word(text, at)
    } else if '0' as u8 <= b && b <= '9' as u8 {
        scan_number(text, at)
    } else if b == '"' as u8 {
        scan_string(text, at)
    } else if blank_width(text, at) > 0 {
        scan_space(text, at)
    } else {
        scan_symbol(text, at)
    }
}

} // verus!
