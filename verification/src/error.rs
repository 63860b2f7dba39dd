//! The error taxonomy: every I/O, parsing and serialization failure of the
//! backends is mapped into one of these kinds, so that callers face one
//! error surface regardless of which backend failed.

use vstd::prelude::*;
use crate::text::concat2;

verus! {

/// One error kind per failure class, each carrying a diagnostic message.
#[derive(Debug, Clone, PartialEq, Eq)]
pub enum CoreError {
    /// A process could not be spawned or its I/O failed.
    CommandError(String),
    /// A subprocess emitted output that is not valid text.
    Utf8Error(String),
    /// Output did not match the expected grammar, including "not found"
    /// answers from a query tool.
    ParseError(String),
    /// Catch-all for domain failures such as a non-zero exit status or an
    /// operation a backend does not implement.
    UnknownError(String),
    /// A JSON document could not be encoded or decoded.
    SerializationError(String),
    /// An HTTP transport failure.
    RequestError(String),
}

impl CoreError {
    /// The full diagnostic line for this error: a fixed prefix naming the
    /// kind, then the carried message.
    pub fn message(&self) -> (r: String)
        ensures
            (self matches CoreError::CommandError(m) ==> r@ == "Failed to execute command: "@
                + m@),
            (self matches CoreError::Utf8Error(m) ==> r@ == "Invalid UTF-8 output: "@ + m@),
            (self matches CoreError::ParseError(m) ==> r@ == "Parse error: "@ + m@),
            (self matches CoreError::UnknownError(m) ==> r@ == "Unknown error: "@ + m@),
            (self matches CoreError::SerializationError(m) ==> r@ == "Serialization error: "@
                + m@),
            (self matches CoreError::RequestError(m) ==> r@ == "request error: "@ + m@),
    {
        match self {
            CoreError::CommandError(m) => concat2("Failed to execute command: ", m.as_str()),
            CoreError::Utf8Error(m) => concat2("Invalid UTF-8 output: ", m.as_str()),
            CoreError::ParseError(m) => concat2("Parse error: ", m.as_str()),
            CoreError::UnknownError(m) => concat2("Unknown error: ", m.as_str()),
            CoreError::SerializationError(m) => concat2("Serialization error: ", m.as_str()),
            CoreError::RequestError(m) => concat2("request error: ", m.as_str()),
        }
    }
}

} // verus!
