//! Classification of complete one-shot responses.
use vstd::prelude::*;
use crate::status::{Error, ErrorResponse};
use crate::text::text_eq;

verus! {

/// A status code in the range of client errors.
pub open spec fn is_client_error(code: u16) -> bool {
    400 <= code < 500
}

/// A status code in the range of server errors.
pub open spec fn is_server_error(code: u16) -> bool {
    500 <= code < 600
}

/// A status code that reports a failed request.
pub open spec fn is_failure(code: u16) -> bool {
    is_client_error(code) || is_server_error(code)
}

/// The reason given in an error synthesized from a body that is no error document.
pub open spec fn unparsed_reason() -> Seq<char> {
    "Failed to parse error data"@
}

/// The text form of the status code `code`: its digits and its canonical reason.
pub uninterp spec fn status_line(code: u16) -> Seq<char>;

/// Relies on http::StatusCode::from_u16, which accepts codes from 100 to 999,
/// and on the Display impl of http::StatusCode, which writes the code and its
/// canonical reason.
#[verifier::external_body]
fn status_text(code: u16) -> (r: String)
    requires
        100 <= code < 1000,
    ensures
        r@ == status_line(code),
{
    http::StatusCode::from_u16(code).unwrap().to_string()
}

/// Whether the status code `code` reports a failed request.
pub fn is_failure_status(code: u16) -> (r: bool)
    ensures
        r == is_failure(code),
{
    (400 <= code && code < 500) || (500 <= code && code < 600)
}

/// Classifies a complete response with status code `code` and body `text`.
/// `parsed` is the body read as an error document, where it is one. A failure
/// status gives the parsed error document, or else one built from the status
/// and the raw body; any other status lets the body be decoded as the payload.
pub fn handle_api_errors(text: &str, code: u16, parsed: Option<ErrorResponse>) -> (r: Result<(), Error>)
    ensures
        !is_failure(code) ==> r is Ok,
        is_failure(code) ==> match parsed {
            Some(e) => r == Err::<(), Error>(Error::Api(e)),
            None => (r matches Err(Error::Api(e)) && e.status@ == status_line(code) && e.code == code
                && e.message@ == text@ && e.reason@ == unparsed_reason()),
        },
{
    if !is_failure_status(code) {
        return Ok(());
    }
    match parsed {
        Some(e) => Err(Error::Api(e)),
        None => {
            let reason = "Failed to parse error data";
            proof {
                reveal_strlit("Failed to parse error data");
            }
            Err(
                Error::Api(
                    ErrorResponse {
                        status: status_text(code),
                        code,
                        message: String::from_str(text),
                        reason: String::from_str(reason),
                    },
                ),
            )
        },
    }
}

/// The HTTP methods that the client sends.
pub open spec fn sendable_method(method: Seq<char>) -> bool {
    method == "GET"@ || method == "POST"@ || method == "DELETE"@ || method == "PUT"@ || method
        == "PATCH"@
}

/// Accepts a request whose method is `method` where the client sends that
/// method, and refuses it otherwise.
pub fn check_method(method: &str) -> (r: Result<(), Error>)
    ensures
        sendable_method(method@) ==> r is Ok,
        !sendable_method(method@) ==> (r matches Err(Error::InvalidMethod(m)) && m@ == method@),
{
    proof {
        reveal_strlit("GET");
        reveal_strlit("POST");
        reveal_strlit("DELETE");
        reveal_strlit("PUT");
        reveal_strlit("PATCH");
    }
    if text_eq(method, "GET") || text_eq(method, "POST") || text_eq(method, "DELETE") || text_eq(
        method,
        "PUT",
    ) || text_eq(method, "PATCH") {
        Ok(())
    } else {
        Err(Error::InvalidMethod(String::from_str(method)))
    }
}

/// Which type a successful body is decoded as.
#[derive(Clone, Copy, PartialEq, Eq, Structural, Debug)]
pub enum Payload {
    /// The type that the caller expects.
    Object,
    /// A `Status` document.
    Status,
}

/// The abstract value of an optional string.
pub open spec fn opt_view(s: Option<String>) -> Option<Seq<char>> {
    match s {
        Some(v) => Some(v@),
        None => None,
    }
}

/// A document is a `Status` exactly when its `kind` is the string `Status`.
pub open spec fn payload_of(kind: Option<Seq<char>>) -> Payload {
    if kind == Some("Status"@) {
        Payload::Status
    } else {
        Payload::Object
    }
}

/// The `kind` member of the JSON document `text`: `None` where `text` is no
/// JSON document, `Some(None)` where the document has no `kind` that is a string.
pub uninterp spec fn json_kind(text: Seq<char>) -> Option<Option<Seq<char>>>;

/// Relies on serde_json::from_str, parsing into serde_json::Value, and on
/// Value::get and Value::as_str to read its `kind` member.
#[verifier::external_body]
fn read_kind(text: &str) -> (r: Result<Option<String>, String>)
    ensures
        match r {
            Ok(k) => json_kind(text@) == Some(opt_view(k)),
            Err(_) => json_kind(text@) is None,
        },
{
    match serde_json::from_str::<serde_json::Value>(text) {
        Ok(v) => Ok(v.get("kind").and_then(|k| k.as_str()).map(|k| k.to_string())),
        Err(e) => Err(e.to_string()),
    }
}

/// Which type a document whose `kind` member is `kind` is decoded as.
pub fn payload_for_kind(kind: Option<String>) -> (r: Payload)
    ensures
        r == payload_of(opt_view(kind)),
{
    proof {
        reveal_strlit("Status");
    }
    match kind {
        Some(k) => {
            if text_eq(k.as_str(), "Status") {
                Payload::Status
            } else {
                Payload::Object
            }
        },
        None => Payload::Object,
    }
}

/// Reads the `kind` of the successful body `text` to choose the type it is
/// decoded as; a body that is no JSON document is a decode error.
pub fn classify_document(text: &str) -> (r: Result<Payload, Error>)
    ensures
        match json_kind(text@) {
            Some(kind) => r == Ok::<Payload, Error>(payload_of(kind)),
            None => r matches Err(Error::Decode(_)),
        },
{
    match read_kind(text) {
        Ok(kind) => Ok(payload_for_kind(kind)),
        Err(message) => Err(Error::Decode(message)),
    }
}

/// The item that a frame of a watch gives: `decoded` is the frame read as the
/// expected type, where it is one, `api` the frame read as an error document,
/// and `raw` its text.
pub fn resolve_item<T>(decoded: Option<T>, api: Option<ErrorResponse>, raw: String) -> (r: Result<T, Error>)
    ensures
        match decoded {
            Some(t) => r == Ok::<T, Error>(t),
            None => match api {
                Some(e) => r == Err::<T, Error>(Error::Api(e)),
                None => r == Err::<T, Error>(Error::Decode(raw)),
            },
        },
{
    match decoded {
        Some(t) => Ok(t),
        None => match api {
            Some(e) => Err(Error::Api(e)),
            None => Err(Error::Decode(raw)),
        },
    }
}

} // verus!
