//! The source document.

use std::ops::Range;
use std::sync::Arc;
use vstd::prelude::*;
use vstd::string::*;
use vstd::utf8::*;

use crate::text::slice_between;

verus! {

/// A handle to the text of one document.
///
/// The text is fixed when the handle is made and is never changed after. A
/// clone shares the buffer with the handle it was cloned from, and whatever
/// borrows from a handle (a slice, a token) cannot outlive it.
///
/// The view of a document is its text as a sequence of characters;
/// [`CoolDoc::bytes`] is the same text as UTF-8 bytes, which is what offsets
/// count.
pub struct CoolDoc {
    text: Arc<String>,
}

impl View for CoolDoc {
    type V = Seq<char>;

    closed spec fn view(&self) -> Seq<char> {
        (*self.text)@
    }
}

impl Clone for CoolDoc {
    fn clone(&self) -> (copy: Self)
        ensures
            copy@ == self@,
    {
        CoolDoc { text: self.text.clone() }
    }
}

impl CoolDoc {
    /// The document's text as UTF-8 bytes.
    pub open spec fn bytes(&self) -> Seq<u8> {
        encode_utf8(self@)
    }

    /// Whether `range` lies inside the document and starts and ends between
    /// two characters.
    pub open spec fn spans(&self, range: Range<usize>) -> bool {
        &&& range.start <= range.end <= self.bytes().len()
        &&& is_char_boundary(self.bytes(), range.start as int)
        &&& is_char_boundary(self.bytes(), range.end as int)
    }

    /// Retrieves the part of the document's text that the byte range `range`
    /// covers.
    ///
    /// The range has to lie inside the document and on character boundaries;
    /// this is a precondition rather than an error value.
    pub fn slice(&self, range: Range<usize>) -> (part: &str)
        requires
            self.spans(range),
        ensures
            part.spec_bytes() == self.bytes().subrange(range.start as int, range.end as int),
            part@ == decode_utf8(self.bytes().subrange(range.start as int, range.end as int)),
    {
        slice_between(self.text(), range.start, range.end)
    }

    /// Retrieves the whole text of the document.
    pub fn text(&self) -> (text: &str)
        ensures
            text@ == self@,
    {
        self.text.as_str()
    }

    /// Creates a document with a copy of `text`.
    pub fn new(text: &str) -> (doc: Self)
        ensures
            doc@ == text@,
    {
        CoolDoc { text: Arc::new(text.to_owned()) }
    }

    /// Creates a document that takes over the buffer of `text`.
    pub fn from_string(text: String) -> (doc: Self)
        ensures
            doc@ == text@,
    {
        CoolDoc { text: Arc::new(text) }
    }
}

} // verus!
