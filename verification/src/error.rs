//! The ways in which a request or a refresh can fail.

use vstd::prelude::*;

verus! {

/// A failure of the library or of one of its collaborators.
#[derive(Debug, Eq, PartialEq)]
pub enum BotError {
    /// The source of the catalog could not be reached; the text says why.
    FetchError(String),
    /// The source answered with something that is no catalog.
    DecodeError(String),
    /// A search pattern is no regular expression.
    InvalidPattern,
    /// A message opens a bracket and names a paper in it, and does not
    /// close the bracket.
    ParseAmbiguous,
}

} // verus!
