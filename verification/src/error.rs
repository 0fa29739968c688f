//! The failures of an operation, one variant for each source.

use vstd::prelude::*;

verus! {

/// Where a text stops being JSON, and why.
#[derive(Debug, Clone, PartialEq)]
pub struct SyntaxError {
    /// The line of the fault, counted from 1.
    pub line: usize,
    /// The column of the fault, counted from 1.
    pub column: usize,
    /// The parser's description of the fault.
    pub message: String,
}

/// Why a body could not be decoded into the shape an operation returns.
#[derive(Debug, Clone, PartialEq)]
pub enum DecodeError {
    /// The body is not JSON text.
    Syntax(SyntaxError),
    /// A list of records was due and the JSON value is no array.
    NotAnArray,
    /// A record was due and the JSON value is no object.
    NotAnObject,
    /// The object has no member `id`.
    MissingId,
    /// The member `id` is neither a string nor a non-negative integer that an
    /// identifier can hold.
    InvalidId,
}

/// The failure of an operation.
#[derive(Debug, PartialEq)]
pub enum Error {
    /// The base URL or a composed URL is malformed.
    Url(url::ParseError),
    /// The backend could not be reached; the text describes the failure.
    Request(String),
    /// The backend answered with a status outside 200..=299: the status code
    /// and a message for a human reader.
    RequestStatus(u16, String),
    /// The body of a successful answer could not be decoded.
    Parse(DecodeError),
    /// What an operation relies on does not hold.
    Unknown(String),
}

} // verus!
