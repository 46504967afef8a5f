//! Values that the API server returns to describe the outcome of a request.
use vstd::prelude::*;

verus! {

/// One reason that contributed to a failed request.
#[derive(Clone, Debug, PartialEq, Eq)]
pub struct StatusCause {
    pub reason: String,
    pub message: String,
    pub field: String,
}

/// Which object a `Status` is about, and why it failed.
#[derive(Clone, Debug, PartialEq, Eq)]
pub struct StatusDetails {
    pub name: String,
    pub group: String,
    pub kind: String,
    pub uid: String,
    pub causes: Vec<StatusCause>,
    pub retry_after_seconds: u32,
}

/// Outcome document returned by some operations in place of the object they acted on.
#[derive(Clone, Debug, PartialEq, Eq)]
pub struct Status {
    pub status: String,
    pub message: String,
    pub reason: String,
    pub details: Option<StatusDetails>,
    pub code: u16,
}

/// The structured error that the server reports for an unsuccessful request.
#[derive(Clone, Debug, PartialEq, Eq)]
pub struct ErrorResponse {
    pub status: String,
    pub message: String,
    pub reason: String,
    pub code: u16,
}

/// What can go wrong when talking to the API server.
#[derive(Clone, Debug, PartialEq, Eq)]
pub enum Error {
    /// The server reported a structured error.
    Api(ErrorResponse),
    /// A payload could not be decoded and is no recognizable server error.
    Decode(String),
    /// The transport failed in a way that ends the exchange.
    Transport(String),
    /// The request used an HTTP method that this client does not send.
    InvalidMethod(String),
}

} // verus!
