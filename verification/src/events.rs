//! Lexical events handed to the decoder by the event source.

use vstd::prelude::*;

verus! {

/// One attribute of an element start event: a key/value pair of strings.
#[derive(Debug, Clone, PartialEq, Eq)]
pub struct Attr {
    pub key: String,
    pub value: String,
}

/// One lexical event of the document.
///
/// The event source produces these in a strict pre-order traversal of the
/// document's element tree: an element's start comes before its children,
/// and all children come before its end.
#[derive(Debug, Clone, PartialEq, Eq)]
pub enum Event {
    /// An element opens; carries its tag name and its attribute list.
    ElementStart { name: String, attrs: Vec<Attr> },
    /// An element closes; carries its tag name.
    ElementEnd { name: String },
    /// The document is over; no further element can open.
    DocumentEnd,
    /// Text, comments and other lexical material the decoder ignores.
    Other,
    /// The event source failed lexically; carries its message.
    SourceError { message: String },
}

} // verus!
