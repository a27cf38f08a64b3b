//! Error values reported by the path operations.

use vstd::prelude::*;

verus! {

/// Everything that a path operation can report instead of a result.
#[derive(Clone, Debug, PartialEq, Eq)]
pub enum PathError {
    /// The path text does not follow the path-data grammar, or a numeric
    /// literal in it does not fit the representable coordinate range.
    /// `offset` is a character position inside the offending text.
    Syntax { message: String, offset: usize },
    /// An editing operation was asked for a segment index that the document
    /// does not have.
    IndexOutOfRange { index: usize, len: usize },
    /// A textual substitution produced a candidate document that does not
    /// parse; the original document is untouched.
    ReplaceValidation { message: String, offset: usize },
    /// A transform would drive a coordinate outside the representable
    /// fixed-point range; the document is untouched.
    OutOfRange,
}

} // verus!
