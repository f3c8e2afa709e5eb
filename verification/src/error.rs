//! Error types.

use crate::text::str_eq;
use vstd::prelude::*;
use vstd::string::StringExecFns;

verus! {

/// The main error type for forum operations.
#[derive(Debug, Clone)]
pub enum Error {
    /// Network-related error, with the transport's own description.
    Network(String),
    /// The server returned an error response.
    NGAApi { code: String, message: String },
    /// Failed to parse response data.
    Parse(String),
    /// Operation requires authentication but none was provided.
    AuthRequired,
    /// A required field was missing in the response.
    MissingField(String),
    /// Invalid argument passed to an API method.
    InvalidArgument(String),
    /// Cache storage error.
    Cache(String),
    /// Internal error.
    Internal(String),
    /// JSON serialization/deserialization error.
    Json(String),
    /// URL parsing error.
    Url(String),
    /// XML parsing error.
    Xml(String),
    /// XPath evaluation error.
    XPath(String),
    /// Feature not implemented.
    NotImplemented(String),
}

/// Result type alias for forum operations.
pub type Result<T> = std::result::Result<T, Error>;

/// `prefix` followed by `detail`.
pub fn prefixed(prefix: &str, detail: &str) -> (r: String)
    ensures
        r@ == prefix@ + detail@,
{
    let mut s = prefix.to_owned();
    s.append(detail);
    s
}

impl Error {
    /// The server's error code that marks a transient block.
    pub open spec fn blocked_code() -> Seq<char> {
        "-4"@
    }

    /// The server's error code for a request that is not authenticated.
    pub open spec fn unauthenticated_code() -> Seq<char> {
        "2"@
    }

    /// What the error says, for display.
    pub open spec fn text(&self) -> Seq<char> {
        match self {
            Error::Network(m) => "Network error: "@ + m@,
            Error::NGAApi { code, message } => "NGA API error ["@ + code@ + "]: "@ + message@,
            Error::Parse(m) => "Parse error: "@ + m@,
            Error::AuthRequired => "Authentication required"@,
            Error::MissingField(m) => "Missing field: "@ + m@,
            Error::InvalidArgument(m) => "Invalid argument: "@ + m@,
            Error::Cache(m) => "Cache error: "@ + m@,
            Error::Internal(m) => "Internal error: "@ + m@,
            Error::Json(m) => "JSON error: "@ + m@,
            Error::Url(m) => "URL error: "@ + m@,
            Error::Xml(m) => "XML error: "@ + m@,
            Error::XPath(m) => "XPath error: "@ + m@,
            Error::NotImplemented(m) => "Not implemented: "@ + m@,
        }
    }

    /// Create a server API error.
    pub fn nga(code: &str, message: &str) -> (r: Self)
        ensures
            r matches Error::NGAApi { code: c, message: m } && c@ == code@ && m@ == message@,
    {
        Error::NGAApi { code: code.to_owned(), message: message.to_owned() }
    }

    /// Create a parse error.
    pub fn parse(msg: &str) -> (r: Self)
        ensures
            r matches Error::Parse(m) && m@ == msg@,
    {
        Error::Parse(msg.to_owned())
    }

    /// Create a missing field error.
    pub fn missing(field: &str) -> (r: Self)
        ensures
            r matches Error::MissingField(m) && m@ == field@,
    {
        Error::MissingField(field.to_owned())
    }

    /// Check if this error is potentially retryable: a network failure, or
    /// the server's transient block.
    pub fn is_retryable(&self) -> (r: bool)
        ensures
            r == match self {
                Error::Network(_) => true,
                Error::NGAApi { code, .. } => code@ == Self::blocked_code(),
                _ => false,
            },
    {
        match self {
            Error::Network(_) => true,
            Error::NGAApi { code, .. } => str_eq(code.as_str(), "-4"),
            _ => false,
        }
    }

    /// Check if this is an authentication error.
    pub fn is_auth_error(&self) -> (r: bool)
        ensures
            r == match self {
                Error::AuthRequired => true,
                Error::NGAApi { code, .. } => code@ == Self::unauthenticated_code(),
                _ => false,
            },
    {
        match self {
            Error::AuthRequired => true,
            Error::NGAApi { code, .. } => str_eq(code.as_str(), "2"),
            _ => false,
        }
    }

    /// The error as display text.
    pub fn to_string(&self) -> (r: String)
        ensures
            r@ == self.text(),
    {
        match self {
            Error::Network(m) => prefixed("Network error: ", m.as_str()),
            Error::NGAApi { code, message } => {
                let mut s = prefixed("NGA API error [", code.as_str());
                s.append("]: ");
                s.append(message.as_str());
                s
            },
            Error::Parse(m) => prefixed("Parse error: ", m.as_str()),
            Error::AuthRequired => "Authentication required".to_owned(),
            Error::MissingField(m) => prefixed("Missing field: ", m.as_str()),
            Error::InvalidArgument(m) => prefixed("Invalid argument: ", m.as_str()),
            Error::Cache(m) => prefixed("Cache error: ", m.as_str()),
            Error::Internal(m) => prefixed("Internal error: ", m.as_str()),
            Error::Json(m) => prefixed("JSON error: ", m.as_str()),
            Error::Url(m) => prefixed("URL error: ", m.as_str()),
            Error::Xml(m) => prefixed("XML error: ", m.as_str()),
            Error::XPath(m) => prefixed("XPath error: ", m.as_str()),
            Error::NotImplemented(m) => prefixed("Not implemented: ", m.as_str()),
        }
    }
}

} // verus!
