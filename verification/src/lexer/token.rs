//! Tokens and the error of the tokenizer.

use vstd::prelude::*;
use vstd::string::*;

use crate::lexer::kind::TokenKind;
use crate::lexer::position::{column_of, line_of};

verus! {

/// A piece of a document with its kind and the place where it starts.
///
/// `line` and `column` are counted from 1, the column in bytes. `slice` is
/// the piece itself and borrows from the document.
#[derive(Debug, PartialEq, Eq, PartialOrd, Ord, Clone, Copy)]
pub struct Token<'a> {
    pub kind: TokenKind,
    pub line: usize,
    pub column: usize,
    pub slice: &'a str,
}

/// A token as the contracts speak of it: its kind, its line and column, and
/// its text as UTF-8 bytes.
pub struct TokenView {
    pub kind: TokenKind,
    pub line: nat,
    pub column: nat,
    pub slice: Seq<u8>,
}

impl<'a> View for Token<'a> {
    type V = TokenView;

    open spec fn view(&self) -> TokenView {
        TokenView {
            kind: self.kind,
            line: self.line as nat,
            column: self.column as nat,
            slice: self.slice.spec_bytes(),
        }
    }
}

impl<'a> DeepView for Token<'a> {
    type V = TokenView;

    open spec fn deep_view(&self) -> TokenView {
        self@
    }
}

/// The token of `kind` that covers the `len` bytes of `text` from `at` on.
pub open spec fn token_view(text: Seq<u8>, at: int, kind: TokenKind, len: nat) -> TokenView {
    TokenView {
        kind,
        line: line_of(text, at),
        column: column_of(text, at),
        slice: text.subrange(at, at + len),
    }
}

/// Why the tokenizer produced no token.
#[derive(Debug, PartialEq, Eq, Clone, Copy, Structural)]
pub enum LexError {
    /// No rule accepts any text at byte `offset` of the document.
    Unrecognized { offset: usize },
}

/// The ten digits.
pub open spec fn digits() -> Seq<char> {
    seq!['0', '1', '2', '3', '4', '5', '6', '7', '8', '9']
}

/// The number `n` in decimal digits, without leading zeros.
pub open spec fn decimal(n: nat) -> Seq<char>
    decreases n,
{
    if n < 10 {
        seq![digits()[n as int]]
    } else {
        decimal(n / 10).push(digits()[(n % 10) as int])
    }
}

/// The number that decimal digits stand for.
pub open spec fn value_of(numeral: Seq<char>) -> nat
    decreases numeral.len(),
{
    if numeral.len() == 0 {
        0
    } else {
        (10 * value_of(numeral.drop_last()) + (numeral.last() as u8 - '0' as u8)) as nat
    }
}

/// The decimal form of a number is made of digits, it starts with `0` only if
/// the number is 0, and the number that it stands for is the number.
pub proof fn lemma_decimal(n: nat)
    ensures
        decimal(n).len() >= 1,
        forall|i: int| 0 <= i < decimal(n).len() ==> digits().contains(#[trigger] decimal(n)[i]),
        decimal(n)[0] == '0' ==> n == 0,
        value_of(decimal(n)) == n,
    decreases n,
{
    if n < 10 {
        assert(value_of(decimal(n).drop_last()) == 0);
    } else {
        lemma_decimal(n / 10);
        assert(decimal(n).drop_last() =~= decimal(n / 10));
    }
}

/// The digit `d` as text.
fn digit(d: usize) -> (text: &'static str)
    requires
        d < 10,
    ensures
        text@ == seq![digits()[d as int]],
{
    proof {
        reveal_strlit("0");
        reveal_strlit("1");
        reveal_strlit("2");
        reveal_strlit("3");
        reveal_strlit("4");
        reveal_strlit("5");
        reveal_strlit("6");
        reveal_strlit("7");
        reveal_strlit("8");
        reveal_strlit("9");
    }
    match d {
        0 => "0",
        1 => "1",
        2 => "2",
        3 => "3",
        4 => "4",
        5 => "5",
        6 => "6",
        7 => "7",
        8 => "8",
        _ => "9",
    }
}

/// Appends the decimal form of `n` to `out`.
fn push_decimal(out: &mut String, n: usize)
    ensures
        final(out)@ == old(out)@ + decimal(n as nat),
    decreases n,
{
    if n >= 10 {
        push_decimal(out, n / 10);
    }
    out.append(digit(n % 10));
}

impl<'a> Token<'a> {
    /// The printed form of the token: line, column and kind with a colon
    /// after each of the first two, then a space and the token's text.
    pub open spec fn printed(&self) -> Seq<char> {
        decimal(self.line as nat) + seq![':'] + decimal(self.column as nat) + seq![':']
            + self.kind.label() + seq![' '] + self.slice@
    }

    /// Prints the token as `line:column:kind text`.
    pub fn to_string(&self) -> (text: String)
        ensures
            text@ == self.printed(),
    {
        proof {
            reveal_strlit(":");
            reveal_strlit(" ");
        }
        let mut text = String::new();
        push_decimal(&mut text, self.line);
        text.append(":");
        push_decimal(&mut text, self.column);
        text.append(":");
        text.append(self.kind.name());
        text.append(" ");
        text.append(self.slice);
        text
    }
}

} // verus!
