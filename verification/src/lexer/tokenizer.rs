//! The tokenizer: a cursor over a document that hands out its tokens.

use vstd::prelude::*;
use vstd::string::*;
use vstd::utf8::*;

use crate::common::CoolDoc;
use crate::lexer::kind::TokenKind;
use crate::lexer::laws::{
    lemma_symbol_token, lemma_token_and_line_feed, lemma_token_ends_on_boundary,
};
use crate::lexer::position::{
    lemma_position_bounds, lemma_same_line, line_start, newlines_before,
};
use crate::lexer::rules::token_at;
use crate::lexer::scan::scan_token;
use crate::lexer::sequence::{stop_from, tokens_from};
use crate::lexer::token::{token_view, LexError, Token};
use crate::text::{lemma_char_step, slice_between, width_at};

verus! {

/// A cursor over the text of a document.
///
/// The tokenizer is either scanning, with its offset inside the text, or
/// exhausted, with its offset at the end. It keeps the number of line feeds
/// before its offset and the offset at which the current line starts, and it
/// only ever moves forward.
pub struct Tokenizer<'a> {
    text: &'a str,
    cursor: usize,
    newlines: usize,
    line_start: usize,
}

impl<'a> Tokenizer<'a> {
    #[verifier::type_invariant]
    spec fn well_formed(self) -> bool {
        &&& self.cursor <= self.text.spec_bytes().len()
        &&& is_char_boundary(self.text.spec_bytes(), self.cursor as int)
        &&& self.newlines == newlines_before(self.text.spec_bytes(), self.cursor as int)
        &&& self.line_start == line_start(self.text.spec_bytes(), self.cursor as int)
    }

    /// The text that the tokenizer walks, as UTF-8 bytes.
    pub closed spec fn source(&self) -> Seq<u8> {
        self.text.spec_bytes()
    }

    /// The byte offset that the tokenizer has reached.
    pub closed spec fn spec_offset(&self) -> usize {
        self.cursor
    }

    /// Whether the tokenizer has reached the end of its text.
    pub open spec fn spec_exhausted(&self) -> bool {
        self.offset() == self.source().len()
    }

    /// What holds of a tokenizer at all times: its text is valid UTF-8, and
    /// its offset lies inside the text, on a character boundary.
    pub open spec fn in_text(&self) -> bool {
        &&& valid_utf8(self.source())
        &&& self.offset() <= self.source().len()
        &&& is_char_boundary(self.source(), self.offset() as int)
    }

    /// Starts a tokenizer at the beginning of `doc`.
    pub fn new(doc: &'a CoolDoc) -> (tokenizer: Self)
        ensures
            tokenizer.source() == doc.bytes(),
            tokenizer.offset() == 0,
            tokenizer.in_text(),
    {
        let text = doc.text();
        proof {
            encode_utf8_valid_utf8(text@);
        }
        Tokenizer { text, cursor: 0, newlines: 0, line_start: 0 }
    }

    /// The byte offset that the tokenizer has reached.
    #[verifier::when_used_as_spec(spec_offset)]
    pub fn offset(&self) -> (offset: usize)
        ensures
            offset == self.offset(),
            self.in_text(),
    {
        proof {
            use_type_invariant(self);
            encode_utf8_valid_utf8(self.text@);
        }
        self.cursor
    }

    /// Whether the tokenizer has reached the end of its text.
    #[verifier::when_used_as_spec(spec_exhausted)]
    pub fn exhausted(&self) -> (yes: bool)
        ensures
            yes == self.exhausted(),
    {
        proof {
            use_type_invariant(self);
        }
        self.cursor == self.text.as_bytes().len()
    }

    /// Scans the next token.
    ///
    /// At the end of the text there is none, and there never will be. Where a
    /// rule accepts text at the offset, the token is returned and the offset
    /// moves behind it. Where none does, the offset is reported and stays
    /// where it is.
    pub fn next_token(&mut self) -> (next: Option<Result<Token<'a>, LexError>>)
        ensures
            final(self).source() == old(self).source(),
            final(self).in_text(),
            old(self).offset() <= final(self).offset(),
            old(self).exhausted() ==> next is None && final(self).offset() == old(self).offset(),
            !old(self).exhausted() ==> match token_at(
                old(self).source(),
                old(self).offset() as int,
            ) {
                Some((kind, len)) => {
                    &&& next matches Some(Ok(token))
                    &&& token@ == token_view(
                        old(self).source(),
                        old(self).offset() as int,
                        kind,
                        len,
                    )
                    &&& final(self).offset() == old(self).offset() + len
                },
                None => {
                    &&& next == Some::<Result<Token<'a>, LexError>>(
                        Err(LexError::Unrecognized { offset: old(self).offset() }),
                    )
                    &&& final(self).offset() == old(self).offset()
                },
            },
    {
        proof {
            use_type_invariant(&*self);
            encode_utf8_valid_utf8(self.text@);
        }
        let bytes = self.text.as_bytes();
        let start = self.cursor;
        if start >= bytes.len() {
            return None;
        }
        match scan_token(bytes, start) {
            None => Some(Err(LexError::Unrecognized { offset: start })),
            Some((kind, len)) => {
                let end = start + len;
                proof {
                    lemma_position_bounds(bytes@, start as int);
                    lemma_token_ends_on_boundary(bytes@, start as int);
                    lemma_token_and_line_feed(bytes@, start as int);
                    if kind != TokenKind::NewLine {
                        lemma_same_line(bytes@, start as int, end as int);
                    }
                }
                let token = Token {
                    kind,
                    line: self.newlines + 1,
                    column: start - self.line_start + 1,
                    slice: slice_between(self.text, start, end),
                };
                let (newlines, line_start) = match kind {
                    TokenKind::NewLine => (self.newlines + 1, end),
                    _ => (self.newlines, self.line_start),
                };
                *self = Tokenizer { text: self.text, cursor: end, newlines, line_start };
                Some(Ok(token))
            },
        }
    }

    /// Steps over the character at the offset if no rule accepts any text
    /// there, and says whether it did. Where the tokenizer is exhausted or a
    /// token starts at the offset, nothing changes.
    pub fn skip_unrecognized(&mut self) -> (skipped: bool)
        ensures
            final(self).source() == old(self).source(),
            final(self).in_text(),
            skipped == (!old(self).exhausted() && token_at(
                old(self).source(),
                old(self).offset() as int,
            ) is None),
            skipped ==> final(self).offset() == old(self).offset() + width_at(
                old(self).source(),
                old(self).offset() as int,
            ),
            !skipped ==> final(self).offset() == old(self).offset(),
    {
        proof {
            use_type_invariant(&*self);
            encode_utf8_valid_utf8(self.text@);
        }
        let bytes = self.text.as_bytes();
        let start = self.cursor;
        if start >= bytes.len() {
            return false;
        }
        match scan_token(bytes, start) {
            Some(_) => false,
            None => {
                let lead = bytes[start];
                let width: usize = if lead < 0x80 {
                    1
                } else if lead < 0xE0 {
                    2
                } else if lead < 0xF0 {
                    3
                } else {
                    4
                };
                proof {
                    lemma_char_step(bytes@, start as int);
                    if lead == '\n' as u8 {
                        lemma_symbol_token(bytes@, start as int, TokenKind::NewLine);
                    }
                    assert forall|i: int| start <= i < start + width implies #[trigger] bytes@[i]
                        != '\n' as u8 by {
                        assert(bytes@.subrange(start as int, bytes@.len() as int)[i - start]
                            == bytes@[i]);
                    }
                    lemma_same_line(bytes@, start as int, start + width);
                }
                *self = Tokenizer {
                    text: self.text,
                    cursor: start + width,
                    newlines: self.newlines,
                    line_start: self.line_start,
                };
                true
            },
        }
    }

    /// Scans the tokens from the offset on, up to the end of the text or to
    /// the first offset at which no rule accepts any text. In the first case
    /// the tokens are returned, in the second that offset is; either way the
    /// tokenizer is left where the scan stopped.
    pub fn collect(&mut self) -> (all: Result<Vec<Token<'a>>, LexError>)
        ensures
            final(self).source() == old(self).source(),
            final(self).in_text(),
            old(self).offset() <= final(self).offset(),
            final(self).offset() == stop_from(old(self).source(), old(self).offset() as int),
            match all {
                Ok(tokens) => {
                    &&& final(self).exhausted()
                    &&& tokens.deep_view() == tokens_from(
                        old(self).source(),
                        old(self).offset() as int,
                    )
                    &&& tokens.len() == tokens_from(
                        old(self).source(),
                        old(self).offset() as int,
                    ).len()
                },
                Err(error) => {
                    &&& !final(self).exhausted()
                    &&& error == (LexError::Unrecognized { offset: final(self).offset() })
                },
            },
    {
        let ghost text = self.source();
        let ghost start = self.offset() as int;
        let mut tokens: Vec<Token<'a>> = Vec::new();
        proof {
            use_type_invariant(&*self);
            encode_utf8_valid_utf8(self.text@);
        }
        loop
            invariant
                text == old(self).source(),
                start == old(self).offset(),
                self.source() == text,
                self.in_text(),
                start <= self.offset() <= text.len(),
                stop_from(text, start) == stop_from(text, self.offset() as int),
                tokens_from(text, start) == tokens.deep_view() + tokens_from(
                    text,
                    self.offset() as int,
                ),
            decreases text.len() - self.offset(),
        {
            let ghost at = self.offset() as int;
            proof {
                use_type_invariant(&*self);
            }
            match self.next_token() {
                None => {
                    return Ok(tokens);
                },
                Some(Err(error)) => {
                    return Err(error);
                },
                Some(Ok(token)) => {
                    tokens.push(token);
                    proof {
                        assert(tokens_from(text, at) =~= seq![token@] + tokens_from(
                            text,
                            self.offset() as int,
                        ));
                    }
                },
            }
        }
    }
}

} // verus!
