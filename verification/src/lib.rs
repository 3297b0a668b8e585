//! A lexer for the Cool teaching language.
//!
//! A [`common::CoolDoc`] holds the text of a document. A
//! [`lexer::Tokenizer`] walks it and hands out [`lexer::Token`]s one at a
//! time, each with its kind, its line and column, and the piece of the text
//! that it covers. White space and line feeds are tokens like any other, so
//! the tokens of a document, put together, are the document.
//!
//! The contracts speak of text as UTF-8 bytes ([`text`]), and every offset
//! and every column is counted in bytes. Which token stands at an offset is
//! defined in [`lexer::rules`]; [`lexer::laws`] and [`lexer::sequence`] hold
//! what follows from that for one token and for all the tokens of a text.

pub mod common;
pub mod lexer;
pub mod text;
