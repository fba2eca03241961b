//! The error taxonomy of a decode pass.
//!
//! Every error is fatal to the pass: the first one encountered unwinds back
//! to the caller of the decode entry point, and no partial result survives.

use vstd::prelude::*;

verus! {

/// Why a decode pass failed.
#[derive(Debug, Clone, PartialEq, Eq)]
pub enum OsmParseError {
    /// The event source reported a lexical or I/O failure; its message is
    /// passed through verbatim.
    Source { message: String },
    /// A required attribute on the current element is missing or not
    /// coercible to its expected type; names the attribute and the element
    /// kind it was required on.
    Attribute { attribute: String, element: String },
    /// An element started inside a scope whose schema does not recognize
    /// that child tag; names the offending tag and the enclosing scope.
    UnexpectedChild { child: String, scope: String },
    /// An element-end tag name does not match the tag expected to close the
    /// current scope.
    MismatchedClose { expected: String, actual: String },
    /// The event stream reached its end while a scope was still open.
    PrematureEnd,
}

/// The mathematical shape of an [`OsmParseError`], with every string viewed
/// as a sequence of characters.
pub enum ErrorModel {
    Source { message: Seq<char> },
    Attribute { attribute: Seq<char>, element: Seq<char> },
    UnexpectedChild { child: Seq<char>, scope: Seq<char> },
    MismatchedClose { expected: Seq<char>, actual: Seq<char> },
    PrematureEnd,
}

impl View for OsmParseError {
    type V = ErrorModel;

    open spec fn view(&self) -> ErrorModel {
        match self {
            OsmParseError::Source { message } => ErrorModel::Source { message: message@ },
            OsmParseError::Attribute { attribute, element } => ErrorModel::Attribute {
                attribute: attribute@,
                element: element@,
            },
            OsmParseError::UnexpectedChild { child, scope } => ErrorModel::UnexpectedChild {
                child: child@,
                scope: scope@,
            },
            OsmParseError::MismatchedClose { expected, actual } => ErrorModel::MismatchedClose {
                expected: expected@,
                actual: actual@,
            },
            OsmParseError::PrematureEnd => ErrorModel::PrematureEnd,
        }
    }
}

} // verus!
