//! The tokenizer.
//!
//! - [`kind`]: the kinds of token.
//! - [`rules`]: what text each kind's rule accepts, and which token stands at
//!   an offset.
//! - [`measure`]: how long the text is that a rule accepts at an offset.
//! - [`laws`]: what holds of the token at an offset.
//! - [`position`]: lines and columns.
//! - [`token`]: tokens, their printed form, and the error.
//! - [`sequence`]: the tokens of a whole text.
//! - [`tokenizer`]: the cursor that hands the tokens out.

use vstd::prelude::*;

use crate::common::CoolDoc;

pub mod kind;
pub mod laws;
mod lemmas;
pub mod measure;
pub mod position;
pub mod rules;
mod scan;
pub mod sequence;
pub mod token;
pub mod tokenizer;

pub use kind::TokenKind;
pub use token::{LexError, Token, TokenView};
pub use tokenizer::Tokenizer;

verus! {

impl CoolDoc {
    /// Starts a tokenizer at the beginning of the document.
    pub fn tokenize(&self) -> (tokenizer: Tokenizer<'_>)
        ensures
            tokenizer.source() == self.bytes(),
            tokenizer.offset() == 0,
            tokenizer.in_text(),
    {
        Tokenizer::new(self)
    }
}

} // verus!
