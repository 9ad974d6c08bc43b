//! Error responses: the requests the service refuses, and the JSON body that
//! carries the reason.

use vstd::prelude::*;
use crate::cors::{cors_header_text, cors_headers};
use crate::models::ErrorResponse;
use crate::params::pairs_view;

verus! {

/// `serde_json::Error`, carried through unread.
#[verifier::external_type_specification]
#[verifier::external_body]
pub struct ExJsonError(serde_json::Error);

/// The lower-case hexadecimal digit for `d` (`0 <= d < 16`).
pub open spec fn hex_digit(d: int) -> char {
    if d < 10 {
        (d + 48) as char
    } else {
        (d + 87) as char
    }
}

/// How one character is written inside a JSON string: `"` and `\` behind a
/// backslash, the usual short escapes for backspace, tab, line feed, form feed
/// and carriage return, other control characters below U+0020 as `\u00XX` in
/// lower-case hex, every other character as itself.
pub open spec fn json_escape_char(c: char) -> Seq<char> {
    if c == '"' {
        seq!['\\', '"']
    } else if c == '\\' {
        seq!['\\', '\\']
    } else if c == '\u{8}' {
        seq!['\\', 'b']
    } else if c == '\t' {
        seq!['\\', 't']
    } else if c == '\n' {
        seq!['\\', 'n']
    } else if c == '\u{c}' {
        seq!['\\', 'f']
    } else if c == '\r' {
        seq!['\\', 'r']
    } else if (c as int) < 32 {
        seq!['\\', 'u', '0', '0', hex_digit(c as int / 16), hex_digit(c as int % 16)]
    } else {
        seq![c]
    }
}

/// The escaped contents of a JSON string.
pub open spec fn json_escape(s: Seq<char>) -> Seq<char>
    decreases s.len(),
{
    if s.len() == 0 {
        Seq::empty()
    } else {
        json_escape(s.drop_last()) + json_escape_char(s.last())
    }
}

/// `s` written as a JSON string literal.
pub open spec fn json_quote(s: Seq<char>) -> Seq<char> {
    seq!['"'] + json_escape(s) + seq!['"']
}

/// The JSON text of an error body with message `msg`: `{"error":<msg>}`.
pub open spec fn error_json(msg: Seq<char>) -> Seq<char> {
    "{\"error\":"@ + json_quote(msg) + "}"@
}

/// `serde_json::to_string` on a string. serde_json writes into a `Vec<u8>`,
/// which cannot fail, and a string serializes without error; the result is the
/// string as a JSON literal with serde_json's escaping (stated by `json_quote`).
#[verifier::external_body]
fn json_string_literal(s: &str) -> (r: Result<String, serde_json::Error>)
    ensures
        r is Ok,
        r matches Ok(t) ==> t@ == json_quote(s@),
{
    serde_json::to_string(s)
}

/// A refused request.
#[derive(Clone, Copy, Debug, PartialEq, Eq, Structural)]
pub enum Rejection {
    /// The bearer token is missing or wrong.
    Unauthorized,
    /// The request body is not the expected JSON.
    InvalidJson,
    /// An update with no villages.
    NoVillages,
    /// An update with more villages than one request may carry.
    TooManyVillages,
    /// A metadata update with no keys.
    NoMetadata,
    /// A search without a non-empty `q`.
    MissingSearchQuery,
    /// `lat` is missing, not a number, or outside -90..=90.
    InvalidLat,
    /// `lon` is missing, not a number, or outside -180..=180.
    InvalidLon,
    /// A code lookup with neither `q` nor `prefix`.
    MissingCodeQuery,
}

/// The HTTP status of a refusal.
pub open spec fn rejection_status(r: Rejection) -> u16 {
    match r {
        Rejection::Unauthorized => 401,
        _ => 400,
    }
}

/// The message of a refusal.
pub open spec fn rejection_text(r: Rejection) -> Seq<char> {
    match r {
        Rejection::Unauthorized => "Unauthorized"@,
        Rejection::InvalidJson => "Invalid JSON body"@,
        Rejection::NoVillages => "No villages provided"@,
        Rejection::TooManyVillages => "Max 500 villages per request"@,
        Rejection::NoMetadata => "No metadata provided"@,
        Rejection::MissingSearchQuery => "Query parameter 'q' is required"@,
        Rejection::InvalidLat => "Invalid or missing 'lat' parameter"@,
        Rejection::InvalidLon => "Invalid or missing 'lon' parameter"@,
        Rejection::MissingCodeQuery => "Provide either 'q' (exact code) or 'prefix' (code prefix)"@,
    }
}

impl Rejection {
    /// The HTTP status of this refusal.
    pub fn status(&self) -> (s: u16)
        ensures
            s == rejection_status(*self),
    {
        match self {
            Rejection::Unauthorized => 401,
            _ => 400,
        }
    }

    /// The message of this refusal.
    pub fn message(&self) -> (m: String)
        ensures
            m@ == rejection_text(*self),
    {
        match self {
            Rejection::Unauthorized => String::from_str("Unauthorized"),
            Rejection::InvalidJson => String::from_str("Invalid JSON body"),
            Rejection::NoVillages => String::from_str("No villages provided"),
            Rejection::TooManyVillages => String::from_str("Max 500 villages per request"),
            Rejection::NoMetadata => String::from_str("No metadata provided"),
            Rejection::MissingSearchQuery => String::from_str("Query parameter 'q' is required"),
            Rejection::InvalidLat => String::from_str("Invalid or missing 'lat' parameter"),
            Rejection::InvalidLon => String::from_str("Invalid or missing 'lon' parameter"),
            Rejection::MissingCodeQuery => String::from_str(
                "Provide either 'q' (exact code) or 'prefix' (code prefix)",
            ),
        }
    }
}

impl ErrorResponse {
    /// This body as JSON: `{"error":<message>}`, the message as a JSON string.
    pub fn to_json(&self) -> (r: String)
        ensures
            r@ == error_json(self.error@),
    {
        let lit = match json_string_literal(self.error.as_str()) {
            Ok(lit) => lit,
            Err(_) => {
                proof {
                    assert(false);
                }
                String::new()
            },
        };
        let mut body = String::from_str("{\"error\":");
        body.append(lit.as_str());
        body.append("}");
        body
    }
}

/// What an error response holds: its status and its JSON body.
pub struct ErrorReply {
    pub status: u16,
    pub body: String,
}

/// The error response for message `msg` with status `status`: that status,
/// the body `{"error":<msg>}`, and the cross-origin headers to set on it.
pub fn error_response(msg: &str, status: u16) -> (r: (ErrorReply, Vec<(String, String)>))
    ensures
        r.0.status == status,
        r.0.body@ == error_json(msg@),
        pairs_view(r.1@) == cors_header_text(),
{
    let body = ErrorResponse { error: String::from_str(msg) };
    (ErrorReply { status, body: body.to_json() }, cors_headers())
}

/// The response that refuses a request for reason `r`: the refusal's status,
/// the body `{"error":<its message>}`, and the cross-origin headers to set on
/// it.
pub fn reject(r: Rejection) -> (res: (ErrorReply, Vec<(String, String)>))
    ensures
        res.0.status == rejection_status(r),
        res.0.body@ == error_json(rejection_text(r)),
        pairs_view(res.1@) == cors_header_text(),
{
    let msg = r.message();
    error_response(msg.as_str(), r.status())
}

} // verus!
